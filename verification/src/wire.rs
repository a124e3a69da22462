//! Protobuf wire format: base-128 varints and a scanner for one top-level
//! field.
use crate::octets;
use crate::text::from_utf8;
use bytes::Bytes;
use vstd::prelude::*;
use vstd::slice::slice_subrange;
use vstd::utf8::*;

verus! {

/// Upper bound for attacker-controlled bytes retained in one scheduler key.
///
/// Conflict keys are meant to be compact identifiers. Falling back to the
/// global serial lane for larger values preserves correctness while preventing
/// a full scheduler queue from duplicating arbitrarily large request fields.
pub const MAX_CONFLICT_KEY_BYTES: usize = 4096;

/// Largest field number that protobuf allows.
pub const MAX_FIELD_NUMBER: u64 = 0x1fff_ffff;

/// Protobuf scalar type of a field that projects to a conflict key.
///
/// The type is part of the consumer's conflict declaration rather than inferred
/// from the wire type: protobuf deliberately shares one wire representation
/// between several scalar types whose decoded equality differs. Floating-point
/// and embedded-message fields are intentionally unsupported as conflict keys;
/// prefer a stable integer, string, or bytes identifier instead.
#[derive(Debug, Clone, Copy, PartialEq, Eq, Structural)]
#[non_exhaustive]
pub enum PayloadFieldKind {
    /// Protobuf `bool` (only canonical wire values 0 and 1 are accepted).
    Bool,
    /// Protobuf `int32`.
    Int32,
    /// Protobuf `int64`.
    Int64,
    /// Protobuf `uint32`.
    Uint32,
    /// Protobuf `uint64`.
    Uint64,
    /// Zig-zag encoded protobuf `sint32`.
    Sint32,
    /// Zig-zag encoded protobuf `sint64`.
    Sint64,
    /// Protobuf `fixed32`.
    Fixed32,
    /// Protobuf `fixed64`.
    Fixed64,
    /// Protobuf `sfixed32`.
    Sfixed32,
    /// Protobuf `sfixed64`.
    Sfixed64,
    /// Protobuf enum numeric value.
    Enum,
    /// UTF-8 protobuf `string`.
    String,
    /// Protobuf `bytes`.
    Bytes,
}

// ── varints ──────────────────────────────────────────────────────────────────

/// `128` to the power `k`.
pub open spec fn pow128(k: nat) -> nat
    decreases k,
{
    if k == 0 {
        1
    } else {
        128 * pow128((k - 1) as nat)
    }
}

/// The varint at the start of `s`, whose first byte is byte number `k` of the
/// encoding: its value (seven bits per byte, least significant first) and its
/// length in bytes. `None` where `s` ends before the terminating byte or the
/// encoding does not fit in 64 bits (byte ten may hold only one bit).
pub open spec fn varint_tail(s: Seq<u8>, k: nat) -> Option<(nat, nat)>
    decreases 10 - k,
{
    if k >= 10 || s.len() == 0 {
        None
    } else if k == 9 && s[0] > 1 {
        None
    } else if s[0] < 128 {
        Some((s[0] as nat, 1))
    } else {
        match varint_tail(s.skip(1), k + 1) {
            Some((v, n)) => Some(((s[0] - 128 + 128 * v) as nat, n + 1)),
            None => None,
        }
    }
}

/// The varint at the start of `s`: its value and its length in bytes.
pub open spec fn varint_at(s: Seq<u8>) -> Option<(nat, nat)> {
    varint_tail(s, 0)
}

/// The unique shortest varint encoding of `v`.
pub open spec fn minimal_varint(v: nat) -> Seq<u8>
    decreases v,
{
    if v < 128 {
        seq![v as u8]
    } else {
        seq![(v % 128 + 128) as u8] + minimal_varint(v / 128)
    }
}

proof fn lemma_pow128_values()
    ensures
        pow128(0) == 1,
        pow128(9) == 0x8000_0000_0000_0000,
        pow128(10) == 128 * 0x8000_0000_0000_0000,
{
    reveal_with_fuel(pow128, 11);
}

proof fn lemma_pow128_step(k: nat)
    ensures
        pow128(k + 1) == 128 * pow128(k),
        pow128(k) >= 1,
    decreases k,
{
    if k > 0 {
        lemma_pow128_step((k - 1) as nat);
    }
}

proof fn lemma_pow128_monotone(i: nat, j: nat)
    requires
        i <= j,
    ensures
        pow128(i) <= pow128(j),
    decreases j - i,
{
    lemma_pow128_step(i);
    if i < j {
        lemma_pow128_monotone(i + 1, j);
    }
}

/// The tail of a varint consumes at least one byte, no more than there are,
/// and its value fits in the bits that are left.
proof fn lemma_varint_tail_bounds(s: Seq<u8>, k: nat)
    requires
        varint_tail(s, k) is Some,
    ensures
        1 <= varint_tail(s, k).unwrap().1 <= s.len(),
        varint_tail(s, k).unwrap().1 + k <= 10,
        k <= 9,
        varint_tail(s, k).unwrap().0 * pow128(k) < 0x1_0000_0000_0000_0000,
    decreases 10 - k,
{
    lemma_pow128_values();
    lemma_pow128_step(k);
    if s[0] < 128 {
        if k == 9 {
        } else {
            lemma_pow128_monotone(k + 1, 9);
            assert(s[0] as nat * pow128(k) <= 128 * pow128(k)) by (nonlinear_arith)
                requires
                    s[0] < 128,
                    pow128(k) >= 1,
            ;
        }
    } else {
        let t = s.skip(1);
        lemma_varint_tail_bounds(t, k + 1);
        let v = varint_tail(t, k + 1).unwrap().0;
        let low = (s[0] - 128) as nat;
        let p = pow128(k);
        // The bits above byte `k` leave room for its seven bits.
        lemma_pow128_monotone(k, 9);
        assert((low + 128 * v) * p == low * p + v * (128 * p)) by (nonlinear_arith);
        assert(low * p <= 127 * p) by (nonlinear_arith)
            requires
                low <= 127,
                p >= 1,
        ;
        if k + 1 <= 9 {
            lemma_pow128_room(v, k + 1);
        }
    }
}

/// A multiple of `pow128(k)` below `2^64` leaves at least `pow128(k)` of room
/// (`k` at most nine).
proof fn lemma_pow128_room(v: nat, k: nat)
    requires
        k <= 9,
        v * pow128(k) < 0x1_0000_0000_0000_0000,
    ensures
        v * pow128(k) + pow128(k) <= 0x1_0000_0000_0000_0000,
{
    lemma_pow128_divides(k);
    let p = pow128(k);
    let m = choose|m: nat| #[trigger] (m * p) == 0x1_0000_0000_0000_0000;
    assert(v < m) by (nonlinear_arith)
        requires
            v * p < m * p,
            p >= 0,
    ;
    assert(v * p + p <= m * p) by (nonlinear_arith)
        requires
            v + 1 <= m,
            p >= 0,
    ;
}

proof fn lemma_pow128_divides(k: nat)
    ensures
        k <= 9 ==> exists|m: nat| #[trigger] (m * pow128(k)) == 0x1_0000_0000_0000_0000,
    decreases 9 - k,
{
    lemma_pow128_values();
    if k == 9 {
        assert(2nat * pow128(k) == 0x1_0000_0000_0000_0000);
    } else if k < 9 {
        lemma_pow128_divides(k + 1);
        lemma_pow128_step(k);
        let m = choose|m: nat| #[trigger] (m * pow128(k + 1)) == 0x1_0000_0000_0000_0000;
        let p = pow128(k);
        assert((128 * m) * p == m * (128 * p)) by (nonlinear_arith);
        assert((128 * m) * pow128(k) == 0x1_0000_0000_0000_0000);
    }
}

/// A varint consumes at least one byte and at most ten, no more than there
/// are, and its value fits in 64 bits.
pub proof fn varint_bounds(s: Seq<u8>)
    requires
        varint_at(s) is Some,
    ensures
        1 <= varint_at(s).unwrap().1 <= 10,
        varint_at(s).unwrap().1 <= s.len(),
        varint_at(s).unwrap().0 <= u64::MAX,
{
    lemma_varint_tail_bounds(s, 0);
    lemma_pow128_values();
}

/// Read a base-128 varint at `off`. Returns `(value, bytes_consumed)` or `Err`
/// on truncation / overflow.
pub fn read_varint(buf: &[u8], off: usize) -> (r: Result<(u64, usize), ()>)
    ensures
        off > buf@.len() ==> r is Err,
        off <= buf@.len() ==> (match varint_at(buf@.skip(off as int)) {
            Some((v, n)) => r == Ok::<(u64, usize), ()>((v as u64, n as usize)) && v <= u64::MAX && n
                <= 10 && n <= buf@.len() - off,
            None => r is Err,
        }),
{
    if off > buf.len() {
        return Err(());
    }
    let ghost s = buf@.skip(off as int);
    let mut result: u64 = 0;
    let mut scale: u64 = 1;
    let mut k: usize = 0;
    proof {
        lemma_pow128_values();
        assert(s.skip(0) =~= s);
        if varint_at(s) is Some {
            varint_bounds(s);
        }
    }
    while k < 10
        invariant
            off <= buf@.len(),
            s == buf@.skip(off as int),
            k <= 10,
            k <= s.len(),
            k <= 9 ==> scale == pow128(k as nat),
            result < pow128(k as nat),
            varint_at(s) is Some ==> varint_at(s).unwrap().1 <= 10 && varint_at(s).unwrap().1
                <= s.len() && varint_at(s).unwrap().0 <= u64::MAX,
            varint_at(s) == (match varint_tail(s.skip(k as int), k as nat) {
                Some((v, n)) => Some(((result + pow128(k as nat) * v) as nat, (k + n) as nat)),
                None => None::<(nat, nat)>,
            }),
        decreases 10 - k,
    {
        if k >= buf.len() - off {
            return Err(());
        }
        let byte: u8 = buf[off + k];
        assert(s.skip(k as int)[0] == byte);
        if k == 9 && byte > 1 {
            return Err(());
        }
        proof {
            lemma_pow128_step(k as nat);
            lemma_pow128_values();
            lemma_pow128_monotone(k as nat, 9);
            assert(s.skip(k as int).skip(1) =~= s.skip(k + 1));
        }
        let low: u64 = (byte % 128) as u64;
        assert(low * scale <= 127 * scale) by (nonlinear_arith)
            requires
                low <= 127,
        ;
        assert(k < 9 ==> 128 * scale <= 0x8000_0000_0000_0000) by {
            if k < 9 {
                lemma_pow128_monotone((k + 1) as nat, 9);
            }
        }
        assert(k == 9 ==> low <= 1);
        assert(low * scale <= 0x8000_0000_0000_0000) by {
            if k == 9 {
                assert(low * scale <= 1 * scale) by (nonlinear_arith)
                    requires
                        low <= 1,
                ;
            }
        }
        let ghost before = result;
        result = result + low * scale;
        assert(result < pow128((k + 1) as nat));
        if byte < 128 {
            assert(low == byte);
            assert(pow128(k as nat) * (byte as nat) == low * scale) by (nonlinear_arith)
                requires
                    low == byte,
                    scale == pow128(k as nat),
            ;
            return Ok((result, k + 1));
        }
        assert(low == byte - 128);
        proof {
            let rest = varint_tail(s.skip(k + 1), (k + 1) as nat);
            if rest is Some {
                let v = rest.unwrap().0;
                let p = pow128(k as nat);
                assert(p * ((byte - 128 + 128 * v) as nat) == low * scale + (128 * p) * v)
                    by (nonlinear_arith)
                    requires
                        low == byte - 128,
                        scale == p,
                        byte >= 128,
                ;
            }
        }
        if k < 9 {
            scale = scale * 128;
        }
        k = k + 1;
    }
    Err(())
}

/// Encode a decoded protobuf varint in its unique minimal representation.
/// This makes alternate overlong wire encodings of the same scalar map to the
/// same scheduler key.
pub fn canonical_varint(value: u64) -> (r: Bytes)
    ensures
        octets::content(r) == minimal_varint(value as nat),
{
    let mut out: Vec<u8> = Vec::new();
    let mut rest: u64 = value;
    while rest >= 128
        invariant
            out@ + minimal_varint(rest as nat) == minimal_varint(value as nat),
        decreases rest,
    {
        let byte: u8 = (rest % 128 + 128) as u8;
        let ghost before = out@;
        out.push(byte);
        assert(out@ + minimal_varint((rest / 128) as nat) =~= before + minimal_varint(rest as nat));
        rest = rest / 128;
    }
    let ghost before = out@;
    out.push(rest as u8);
    assert(out@ =~= before + minimal_varint(rest as nat));
    Bytes::copy_from_slice(out.as_slice())
}

// ── top-level fields ─────────────────────────────────────────────────────────

/// The value of one top-level field as it stands on the wire.
pub enum FieldValue {
    /// Wire type 0: a varint.
    Varint(nat),
    /// Wire type 1: eight bytes.
    Fixed64(Seq<u8>),
    /// Wire type 2: a length prefix and that many bytes.
    Delimited(Seq<u8>),
    /// Wire type 5: four bytes.
    Fixed32(Seq<u8>),
}

/// One top-level field: its number and its value.
pub struct Field {
    pub number: nat,
    pub value: FieldValue,
}

/// The value of wire type `wire` at the start of `s` and its length in bytes.
/// `None` where it is truncated or the wire type is not supported (groups).
pub open spec fn value_at(s: Seq<u8>, wire: nat) -> Option<(FieldValue, nat)> {
    if wire == 0 {
        match varint_at(s) {
            Some((v, n)) => Some((FieldValue::Varint(v), n)),
            None => None,
        }
    } else if wire == 1 {
        if s.len() >= 8 {
            Some((FieldValue::Fixed64(s.take(8)), 8))
        } else {
            None
        }
    } else if wire == 2 {
        match varint_at(s) {
            Some((len, n)) => if n + len <= s.len() {
                Some((FieldValue::Delimited(s.subrange(n as int, (n + len) as int)), n + len))
            } else {
                None
            },
            None => None,
        }
    } else if wire == 5 {
        if s.len() >= 4 {
            Some((FieldValue::Fixed32(s.take(4)), 4))
        } else {
            None
        }
    } else {
        None
    }
}

/// The field at the start of `s` and its length in bytes. The key varint holds
/// the field number above three bits of wire type; numbers outside
/// `1..=2^29-1` are malformed.
pub open spec fn field_at(s: Seq<u8>) -> Option<(Field, nat)> {
    match varint_at(s) {
        Some((tag, n)) => if 1 <= tag / 8 <= MAX_FIELD_NUMBER {
            match value_at(s.skip(n as int), tag % 8) {
                Some((value, m)) => Some((Field { number: tag / 8, value }, n + m)),
                None => None,
            }
        } else {
            None
        },
        None => None,
    }
}

/// Whether a varint is a valid encoding of a scalar of this kind.
pub open spec fn varint_fits(v: nat, kind: PayloadFieldKind) -> bool {
    match kind {
        PayloadFieldKind::Bool => v <= 1,
        PayloadFieldKind::Int32 | PayloadFieldKind::Enum => v <= 0x7fff_ffff || v
            >= 0xffff_ffff_8000_0000,
        PayloadFieldKind::Uint32 | PayloadFieldKind::Sint32 => v <= 0xffff_ffff,
        PayloadFieldKind::Int64 | PayloadFieldKind::Uint64 | PayloadFieldKind::Sint64 => true,
        _ => false,
    }
}

/// The canonical bytes of a field value for its declared kind: the minimal
/// varint, the raw fixed-width bytes, or the delimited content. `None` where
/// the value is not a valid encoding of that kind or is too large for a key.
pub open spec fn canonical_value(value: FieldValue, kind: PayloadFieldKind) -> Option<Seq<u8>> {
    match value {
        FieldValue::Varint(v) => if varint_fits(v, kind) {
            Some(minimal_varint(v))
        } else {
            None
        },
        FieldValue::Fixed64(b) => if kind is Fixed64 || kind is Sfixed64 {
            Some(b)
        } else {
            None
        },
        FieldValue::Delimited(b) => if (kind is Bytes || (kind is String && valid_utf8(b)))
            && b.len() <= MAX_CONFLICT_KEY_BYTES {
            Some(b)
        } else {
            None
        },
        FieldValue::Fixed32(b) => if kind is Fixed32 || kind is Sfixed32 {
            Some(b)
        } else {
            None
        },
    }
}

/// Scan of the fields of `s` for the one numbered `target`, where `found` is
/// its canonical value if it was already seen. A second occurrence is ambiguous
/// and ends the scan without a value; a malformed field, or a target that is
/// not a valid value of its kind, is an error.
pub open spec fn scan_from(
    s: Seq<u8>,
    target: nat,
    kind: PayloadFieldKind,
    found: Option<Seq<u8>>,
) -> Result<Option<Seq<u8>>, ()>
    decreases s.len(),
{
    if s.len() == 0 {
        Ok(found)
    } else {
        match field_at(s) {
            None => Err(()),
            Some((field, n)) => {
                proof {
                    field_bounds(s);
                }
                if field.number != target {
                    scan_from(s.skip(n as int), target, kind, found)
                } else if found is Some {
                    Ok(None)
                } else {
                    match canonical_value(field.value, kind) {
                        None => Err(()),
                        Some(b) => scan_from(s.skip(n as int), target, kind, Some(b)),
                    }
                }
            },
        }
    }
}

/// Scan of a whole message for the field numbered `target`.
pub open spec fn scan_message(
    payload: Seq<u8>,
    target: nat,
    kind: PayloadFieldKind,
) -> Result<Option<Seq<u8>>, ()> {
    scan_from(payload, target, kind, None)
}

/// The content view of an optional byte string.
pub open spec fn octets_opt(b: Option<Bytes>) -> Option<Seq<u8>> {
    match b {
        Some(b) => Some(octets::content(b)),
        None => None,
    }
}

/// Canonicalize a varint according to the protobuf schema type. Values that a
/// generated decoder may coerce or truncate, but that are not valid encodings
/// for the declared scalar, fail closed to the global serial lane.
pub fn canonical_typed_varint(value: u64, kind: PayloadFieldKind) -> (r: Result<Bytes, ()>)
    ensures
        r is Ok <==> varint_fits(value as nat, kind),
        r is Ok <==> encodes_scalar(value as int, kind),
        r matches Ok(b) ==> octets::content(b) == minimal_varint(value as nat),
{
    proof {
        varints_of_a_type_are_its_values(value, kind);
    }
    let fits: bool = match kind {
        PayloadFieldKind::Bool => value <= 1,
        PayloadFieldKind::Int32 | PayloadFieldKind::Enum => value <= 0x7fff_ffff || value
            >= 0xffff_ffff_8000_0000,
        PayloadFieldKind::Uint32 | PayloadFieldKind::Sint32 => value <= 0xffff_ffff,
        PayloadFieldKind::Int64 | PayloadFieldKind::Uint64 | PayloadFieldKind::Sint64 => true,
        _ => false,
    };
    if fits {
        Ok(canonical_varint(value))
    } else {
        Err(())
    }
}

/// A field consumes at least two bytes and no more than there are.
pub proof fn field_bounds(s: Seq<u8>)
    requires
        field_at(s) is Some,
    ensures
        1 <= field_at(s).unwrap().1 <= s.len(),
{
    varint_bounds(s);
    let n = varint_at(s).unwrap().1;
    if varint_at(s.skip(n as int)) is Some {
        varint_bounds(s.skip(n as int));
    }
}

/// A field value inside a buffer: a decoded varint, or where its bytes stand.
enum WireValue {
    Varint(u64),
    Fixed64 { start: usize },
    Delimited { start: usize, len: usize },
    Fixed32 { start: usize },
}

impl WireValue {
    /// The value that this stands for in `buf`.
    spec fn in_buffer(self, buf: Seq<u8>) -> FieldValue {
        match self {
            WireValue::Varint(v) => FieldValue::Varint(v as nat),
            WireValue::Fixed64 { start } => FieldValue::Fixed64(
                buf.subrange(start as int, start + 8),
            ),
            WireValue::Delimited { start, len } => FieldValue::Delimited(
                buf.subrange(start as int, start + len),
            ),
            WireValue::Fixed32 { start } => FieldValue::Fixed32(
                buf.subrange(start as int, start + 4),
            ),
        }
    }

    /// The bytes that this stands for lie inside `buf`.
    spec fn inside(self, buf: Seq<u8>) -> bool {
        match self {
            WireValue::Varint(_) => true,
            WireValue::Fixed64 { start } => start + 8 <= buf.len(),
            WireValue::Delimited { start, len } => start + len <= buf.len(),
            WireValue::Fixed32 { start } => start + 4 <= buf.len(),
        }
    }
}

/// Read the value of wire type `wire` at `off`: the value and its length.
fn read_value(buf: &[u8], off: usize, wire: u64) -> (r: Result<(WireValue, usize), ()>)
    requires
        off <= buf@.len(),
    ensures
        match value_at(buf@.skip(off as int), wire as nat) {
            Some((value, n)) => r matches Ok((w, m)) && w.in_buffer(buf@) == value && w.inside(buf@)
                && m == n && off + m <= buf@.len(),
            None => r is Err,
        },
{
    let ghost s = buf@.skip(off as int);
    let remaining: usize = buf.len() - off;
    if wire == 0 {
        match read_varint(buf, off) {
            Ok((value, n)) => Ok((WireValue::Varint(value), n)),
            Err(_) => Err(()),
        }
    } else if wire == 1 {
        if 8 > remaining {
            return Err(());
        }
        assert(s.take(8) =~= buf@.subrange(off as int, off + 8));
        Ok((WireValue::Fixed64 { start: off }, 8))
    } else if wire == 2 {
        let (len, n) = match read_varint(buf, off) {
            Ok(p) => p,
            Err(_) => return Err(()),
        };
        // A hostile length prefix can be up to `u64::MAX`: compare it against
        // the remaining bytes rather than adding it to the offset.
        if len > (remaining - n) as u64 {
            return Err(());
        }
        let len: usize = len as usize;
        assert(s.subrange(n as int, n + len) =~= buf@.subrange(off + n, off + n + len));
        Ok((WireValue::Delimited { start: off + n, len }, n + len))
    } else if wire == 5 {
        if 4 > remaining {
            return Err(());
        }
        assert(s.take(4) =~= buf@.subrange(off as int, off + 4));
        Ok((WireValue::Fixed32 { start: off }, 4))
    } else {
        Err(())
    }
}

/// Read the field at `off`: its number, its value and its length.
fn read_field(buf: &[u8], off: usize) -> (r: Result<(u64, WireValue, usize), ()>)
    requires
        off <= buf@.len(),
    ensures
        match field_at(buf@.skip(off as int)) {
            Some((field, n)) => r matches Ok((number, w, m)) && number == field.number && w.in_buffer(
                buf@,
            ) == field.value && w.inside(buf@) && m == n && off + m <= buf@.len(),
            None => r is Err,
        },
{
    assert(buf@.len() == buf.len());
    let (tag, n) = match read_varint(buf, off) {
        Ok(p) => p,
        Err(_) => return Err(()),
    };
    // Reject zero and oversized field numbers before narrowing, so that a
    // hostile high tag cannot truncate to the configured conflict field.
    let number: u64 = tag / 8;
    if number == 0 || number > MAX_FIELD_NUMBER {
        return Err(());
    }
    assert(buf@.skip(off + n) =~= buf@.skip(off as int).skip(n as int));
    match read_value(buf, off + n, tag % 8) {
        Ok((value, m)) => Ok((number, value, n + m)),
        Err(_) => Err(()),
    }
}

/// The canonical bytes of a field value for its declared kind.
fn canonical_field(buf: &[u8], value: WireValue, kind: PayloadFieldKind) -> (r: Result<Bytes, ()>)
    requires
        value.inside(buf@),
    ensures
        match canonical_value(value.in_buffer(buf@), kind) {
            Some(b) => r matches Ok(c) && octets::content(c) == b,
            None => r is Err,
        },
{
    assert(buf@.len() == buf.len());
    match value {
        WireValue::Varint(v) => canonical_typed_varint(v, kind),
        WireValue::Fixed64 { start } => {
            if kind == PayloadFieldKind::Fixed64 || kind == PayloadFieldKind::Sfixed64 {
                Ok(Bytes::copy_from_slice(slice_subrange(buf, start, start + 8)))
            } else {
                Err(())
            }
        },
        WireValue::Delimited { start, len } => {
            if !(kind == PayloadFieldKind::String || kind == PayloadFieldKind::Bytes) {
                return Err(());
            }
            if len > MAX_CONFLICT_KEY_BYTES {
                return Err(());
            }
            let content: &[u8] = slice_subrange(buf, start, start + len);
            if kind == PayloadFieldKind::String && from_utf8(content).is_err() {
                return Err(());
            }
            Ok(Bytes::copy_from_slice(content))
        },
        WireValue::Fixed32 { start } => {
            if kind == PayloadFieldKind::Fixed32 || kind == PayloadFieldKind::Sfixed32 {
                Ok(Bytes::copy_from_slice(slice_subrange(buf, start, start + 4)))
            } else {
                Err(())
            }
        },
    }
}

/// Scan the *top level* of a protobuf message for the field numbered `target`
/// and return its schema-aware canonical value bytes.
///
/// * varint → validated for `kind`, then encoded as a minimal varint
/// * fixed32 / fixed64 → the 4 / 8 raw bytes
/// * string / bytes → the content bytes (length prefix stripped; strings must
///   be valid UTF-8)
///
/// Returns `Ok(None)` when the field is absent or appears more than once
/// (repeated → ambiguous → fall back), and `Err(())` on a malformed buffer or
/// an unsupported wire type (groups). Length-delimited values are accepted only
/// as declared strings or bytes; an embedded message must not be mislabeled as
/// bytes because its semantic value has multiple valid wire encodings. The
/// caller treats any error/none as a serial fallback.
pub fn scan_top_level_field(payload: &[u8], target: u32, kind: PayloadFieldKind) -> (r: Result<
    Option<Bytes>,
    (),
>)
    ensures
        match scan_message(payload@, target as nat, kind) {
            Ok(v) => r matches Ok(b) && octets_opt(b) == v,
            Err(_) => r is Err,
        },
{
    let mut i: usize = 0;
    let mut found: Option<Bytes> = None;
    assert(payload@.skip(0) =~= payload@);
    while i < payload.len()
        invariant
            i <= payload@.len(),
            scan_message(payload@, target as nat, kind) == scan_from(
                payload@.skip(i as int),
                target as nat,
                kind,
                octets_opt(found),
            ),
        decreases payload@.len() - i,
    {
        let ghost s = payload@.skip(i as int);
        let (number, value, n) = match read_field(payload, i) {
            Ok(f) => f,
            Err(_) => return Err(()),
        };
        proof {
            field_bounds(s);
            assert(payload@.skip(i + n) =~= s.skip(n as int));
        }
        if number == target as u64 {
            if found.is_some() {
                return Ok(None);
            }
            match canonical_field(payload, value, kind) {
                Ok(b) => {
                    found = Some(b);
                },
                Err(_) => return Err(()),
            }
        }
        i = i + n;
    }
    Ok(found)
}

// ── laws ─────────────────────────────────────────────────────────────────────

proof fn lemma_minimal_varint_tail(v: nat, rest: Seq<u8>, k: nat)
    requires
        k <= 9,
        v * pow128(k) < 0x1_0000_0000_0000_0000,
    ensures
        varint_tail(minimal_varint(v) + rest, k) == Some((v, minimal_varint(v).len())),
        minimal_varint(v).len() + k <= 10,
    decreases v,
{
    lemma_pow128_values();
    lemma_pow128_step(k);
    let s = minimal_varint(v) + rest;
    if v < 128 {
        assert(s[0] == v as u8);
        if k == 9 {
            let p = pow128(k);
            assert(v <= 1) by (nonlinear_arith)
                requires
                    v * p < 0x1_0000_0000_0000_0000,
                    p == 0x8000_0000_0000_0000,
            ;
        }
    } else {
        let p = pow128(k);
        assert(s[0] == (v % 128 + 128) as u8);
        assert(128 * p <= v * p) by (nonlinear_arith)
            requires
                v >= 128,
                p >= 0,
        ;
        if k == 9 {
            assert(false);
        }
        assert((v / 128) * (128 * p) <= v * p) by (nonlinear_arith)
            requires
                p >= 0,
                v >= 0,
        ;
        lemma_minimal_varint_tail(v / 128, rest, k + 1);
        assert(s.skip(1) =~= minimal_varint(v / 128) + rest);
    }
}

/// Reading back a minimal encoding gives the value that was encoded, whatever
/// follows it, and consumes exactly the encoding.
pub proof fn varint_roundtrip(v: u64, rest: Seq<u8>)
    ensures
        varint_at(minimal_varint(v as nat) + rest) == Some(
            (v as nat, minimal_varint(v as nat).len()),
        ),
        1 <= minimal_varint(v as nat).len() <= 10,
{
    lemma_pow128_values();
    lemma_minimal_varint_tail(v as nat, rest, 0);
}

/// Distinct scalars have distinct canonical encodings.
pub proof fn minimal_varint_injective(a: u64, b: u64)
    requires
        minimal_varint(a as nat) == minimal_varint(b as nat),
    ensures
        a == b,
{
    varint_roundtrip(a, Seq::empty());
    varint_roundtrip(b, Seq::empty());
}

/// No encoding of a scalar is shorter than its minimal one.
pub proof fn minimal_varint_is_shortest(s: Seq<u8>)
    requires
        varint_at(s) is Some,
    ensures
        minimal_varint(varint_at(s).unwrap().0).len() <= varint_at(s).unwrap().1,
{
    lemma_shortest_tail(s, 0);
}

proof fn lemma_shortest_tail(s: Seq<u8>, k: nat)
    requires
        varint_tail(s, k) is Some,
    ensures
        minimal_varint(varint_tail(s, k).unwrap().0).len() <= varint_tail(s, k).unwrap().1,
    decreases 10 - k,
{
    if s[0] >= 128 {
        lemma_shortest_tail(s.skip(1), k + 1);
        let v = varint_tail(s.skip(1), k + 1).unwrap().0;
        let w = (s[0] - 128 + 128 * v) as nat;
        if w >= 128 {
            assert(w / 128 == v);
        }
    }
}

/// A well-formed field with another number does not take part in the
/// projection: putting it in front changes nothing.
pub proof fn other_fields_are_skipped(s: Seq<u8>, target: nat, kind: PayloadFieldKind)
    requires
        field_at(s) is Some,
        field_at(s).unwrap().0.number != target,
    ensures
        scan_message(s, target, kind) == scan_message(
            s.skip(field_at(s).unwrap().1 as int),
            target,
            kind,
        ),
{
    field_bounds(s);
}

/// A message that consists of the target field alone projects to that field's
/// canonical value, and fails where it has none.
pub proof fn single_field_projects(s: Seq<u8>, target: nat, kind: PayloadFieldKind)
    requires
        field_at(s) is Some,
        field_at(s).unwrap().1 == s.len(),
        field_at(s).unwrap().0.number == target,
    ensures
        scan_message(s, target, kind) == (match canonical_value(
            field_at(s).unwrap().0.value,
            kind,
        ) {
            Some(b) => Ok::<Option<Seq<u8>>, ()>(Some(b)),
            None => Err(()),
        }),
{
    field_bounds(s);
    assert(s.skip(s.len() as int) =~= Seq::<u8>::empty());
    if canonical_value(field_at(s).unwrap().0.value, kind) is Some {
        let b = canonical_value(field_at(s).unwrap().0.value, kind).unwrap();
        assert(scan_from(s.skip(s.len() as int), target, kind, Some(b)) == Ok::<
            Option<Seq<u8>>,
            (),
        >(Some(b)));
    }
}

/// The fields of a message in order, up to the first malformed one, and whether
/// the message ends without one.
pub open spec fn fields_of(s: Seq<u8>) -> (Seq<Field>, bool)
    decreases s.len(),
{
    if s.len() == 0 {
        (Seq::empty(), true)
    } else {
        match field_at(s) {
            None => (Seq::empty(), false),
            Some((field, n)) => {
                proof {
                    field_bounds(s);
                }
                let rest = fields_of(s.skip(n as int));
                (seq![field] + rest.0, rest.1)
            },
        }
    }
}

proof fn lemma_scan_sees_fields(
    s: Seq<u8>,
    t: Seq<u8>,
    target: nat,
    kind: PayloadFieldKind,
    found: Option<Seq<u8>>,
)
    requires
        fields_of(s) == fields_of(t),
    ensures
        scan_from(s, target, kind, found) == scan_from(t, target, kind, found),
    decreases s.len(),
{
    lemma_field_bounds(s);
    lemma_field_bounds(t);
    if s.len() > 0 && field_at(s) is Some {
        let (field, n) = field_at(s).unwrap();
        let all = fields_of(s).0;
        assert(all[0] == field);
        assert(t.len() > 0 && field_at(t) is Some);
        let (other, m) = field_at(t).unwrap();
        assert(fields_of(t).0[0] == other);
        let u = s.skip(n as int);
        let v = t.skip(m as int);
        assert(fields_of(u).0 =~= all.skip(1));
        assert(fields_of(v).0 =~= fields_of(t).0.skip(1));
        lemma_scan_sees_fields(u, v, target, kind, found);
        match canonical_value(field.value, kind) {
            Some(b) => lemma_scan_sees_fields(u, v, target, kind, Some(b)),
            None => {},
        }
    } else if t.len() > 0 && field_at(t) is Some {
        assert(fields_of(t).0.len() > 0);
    }
}

proof fn lemma_field_bounds(s: Seq<u8>)
    ensures
        field_at(s) matches Some((_, n)) ==> 0 < n <= s.len(),
{
    if field_at(s) is Some {
        field_bounds(s);
    }
}

/// Two messages that carry the same fields, however they encode numbers, tags and
/// lengths, project to the same key, or fail alike.
pub proof fn overlong_encodings_share_a_key(
    s: Seq<u8>,
    t: Seq<u8>,
    target: nat,
    kind: PayloadFieldKind,
)
    requires
        fields_of(s) == fields_of(t),
    ensures
        scan_message(s, target, kind) == scan_message(t, target, kind),
{
    lemma_scan_sees_fields(s, t, target, kind, None);
}

/// The values of the fields with number `target`, in order.
pub open spec fn occurrences(fields: Seq<Field>, target: nat) -> Seq<FieldValue>
    decreases fields.len(),
{
    if fields.len() == 0 {
        Seq::empty()
    } else if fields[0].number == target {
        seq![fields[0].value] + occurrences(fields.skip(1), target)
    } else {
        occurrences(fields.skip(1), target)
    }
}

/// The logical value of the field numbered `target` in a message: that of its only
/// occurrence in a well-formed message, where it is a valid value of its kind.
pub open spec fn declared_value(s: Seq<u8>, target: nat, kind: PayloadFieldKind) -> Option<
    FieldValue,
> {
    let found = occurrences(fields_of(s).0, target);
    if fields_of(s).1 && found.len() == 1 && canonical_value(found[0], kind) is Some {
        Some(found[0])
    } else {
        None
    }
}

proof fn lemma_scan_finds(
    s: Seq<u8>,
    target: nat,
    kind: PayloadFieldKind,
    found: Option<Seq<u8>>,
    b: Seq<u8>,
)
    ensures
        scan_from(s, target, kind, found) == Ok::<Option<Seq<u8>>, ()>(Some(b)) <==> {
            let values = occurrences(fields_of(s).0, target);
            fields_of(s).1 && match found {
                Some(f) => f == b && values.len() == 0,
                None => values.len() == 1 && canonical_value(values[0], kind) == Some(b),
            }
        },
    decreases s.len(),
{
    if s.len() > 0 && field_at(s) is Some {
        field_bounds(s);
        let (field, n) = field_at(s).unwrap();
        let rest = s.skip(n as int);
        assert(fields_of(s).0.skip(1) =~= fields_of(rest).0);
        assert(fields_of(s).0[0] == field);
        lemma_scan_finds(rest, target, kind, found, b);
        match canonical_value(field.value, kind) {
            Some(c) => lemma_scan_finds(rest, target, kind, Some(c), b),
            None => {},
        }
    }
}

proof fn lemma_varint_value(s: Seq<u8>, target: nat, i: int)
    requires
        0 <= i < occurrences(fields_of(s).0, target).len(),
    ensures
        occurrences(fields_of(s).0, target)[i] matches FieldValue::Varint(v) ==> v <= u64::MAX,
    decreases s.len(),
{
    if s.len() > 0 && field_at(s) is Some {
        field_bounds(s);
        let (field, n) = field_at(s).unwrap();
        let (tag, m) = varint_at(s).unwrap();
        if field.value is Varint {
            varint_bounds(s.skip(m as int));
        }
        assert(fields_of(s).0.skip(1) =~= fields_of(s.skip(n as int)).0);
        assert(fields_of(s).0[0] == field);
        if field.number == target {
            if i > 0 {
                lemma_varint_value(s.skip(n as int), target, i - 1);
            }
        } else {
            lemma_varint_value(s.skip(n as int), target, i);
        }
    }
}

/// A scan finds exactly the canonical form of the declared field's logical value.
pub proof fn scan_finds_the_declared_value(s: Seq<u8>, target: nat, kind: PayloadFieldKind)
    ensures
        match declared_value(s, target, kind) {
            Some(value) => scan_message(s, target, kind) == Ok::<Option<Seq<u8>>, ()>(
                canonical_value(value, kind),
            ),
            None => !(scan_message(s, target, kind) matches Ok(Some(_))),
        },
{
    match declared_value(s, target, kind) {
        Some(value) => lemma_scan_finds(
            s,
            target,
            kind,
            None,
            canonical_value(value, kind).unwrap(),
        ),
        None => {
            if let Ok(Some(b)) = scan_message(s, target, kind) {
                lemma_scan_finds(s, target, kind, None, b);
            }
        },
    }
}

/// Two messages are projected to the same bytes exactly when the declared field
/// has the same logical value in both, whatever else they hold.
pub proof fn projections_tell_values_apart(
    s: Seq<u8>,
    t: Seq<u8>,
    target: nat,
    kind: PayloadFieldKind,
)
    requires
        declared_value(s, target, kind) is Some,
        declared_value(t, target, kind) is Some,
    ensures
        scan_message(s, target, kind) == scan_message(t, target, kind) <==> declared_value(
            s,
            target,
            kind,
        ) == declared_value(t, target, kind),
{
    scan_finds_the_declared_value(s, target, kind);
    scan_finds_the_declared_value(t, target, kind);
    lemma_varint_value(s, target, 0);
    lemma_varint_value(t, target, 0);
    match (declared_value(s, target, kind).unwrap(), declared_value(t, target, kind).unwrap()) {
        (FieldValue::Varint(v), FieldValue::Varint(w)) => {
            if minimal_varint(v) == minimal_varint(w) {
                minimal_varint_injective(v as u64, w as u64);
            }
        },
        _ => {},
    }
}

/// A target that occurs twice is ambiguous: where the first occurrence is
/// valid and a second one follows, the scan gives no value.
pub proof fn repeated_target_is_ambiguous(s: Seq<u8>, target: nat, kind: PayloadFieldKind)
    requires
        field_at(s) is Some,
        field_at(s).unwrap().0.number == target,
        canonical_value(field_at(s).unwrap().0.value, kind) is Some,
        s.len() > field_at(s).unwrap().1,
        field_at(s.skip(field_at(s).unwrap().1 as int)) is Some,
        field_at(s.skip(field_at(s).unwrap().1 as int)).unwrap().0.number == target,
    ensures
        scan_message(s, target, kind) == Ok::<Option<Seq<u8>>, ()>(None),
{
    let n = field_at(s).unwrap().1;
    field_bounds(s);
    field_bounds(s.skip(n as int));
    let b = canonical_value(field_at(s).unwrap().0.value, kind).unwrap();
    assert(scan_from(s.skip(n as int), target, kind, Some(b)) == Ok::<Option<Seq<u8>>, ()>(None));
}

proof fn lemma_value_at_bounds(s: Seq<u8>, kind: PayloadFieldKind)
    requires
        field_at(s) is Some,
        canonical_value(field_at(s).unwrap().0.value, kind) is Some,
    ensures
        canonical_value(field_at(s).unwrap().0.value, kind).unwrap().len()
            <= MAX_CONFLICT_KEY_BYTES,
{
    let (tag, n) = varint_at(s).unwrap();
    let rest = s.skip(n as int);
    match field_at(s).unwrap().0.value {
        FieldValue::Varint(v) => {
            varint_bounds(rest);
            varint_roundtrip(v as u64, Seq::empty());
        },
        _ => {},
    }
}

proof fn lemma_scan_bound(s: Seq<u8>, target: nat, kind: PayloadFieldKind, found: Option<Seq<u8>>)
    requires
        found is Some ==> found.unwrap().len() <= MAX_CONFLICT_KEY_BYTES,
    ensures
        scan_from(s, target, kind, found) matches Ok(Some(b)) ==> b.len() <= MAX_CONFLICT_KEY_BYTES,
    decreases s.len(),
{
    if s.len() > 0 && field_at(s) is Some {
        field_bounds(s);
        let (field, n) = field_at(s).unwrap();
        if field.number != target {
            lemma_scan_bound(s.skip(n as int), target, kind, found);
        } else if found is None && canonical_value(field.value, kind) is Some {
            lemma_value_at_bounds(s, kind);
            lemma_scan_bound(
                s.skip(n as int),
                target,
                kind,
                Some(canonical_value(field.value, kind).unwrap()),
            );
        }
    }
}

/// No projected key is larger than the bound, whatever the message.
pub proof fn projected_key_is_bounded(payload: Seq<u8>, target: nat, kind: PayloadFieldKind)
    ensures
        scan_message(payload, target, kind) matches Ok(Some(b)) ==> b.len()
            <= MAX_CONFLICT_KEY_BYTES,
{
    lemma_scan_bound(payload, target, kind, None);
}

/// The 64-bit two's complement of a number.
pub open spec fn twos_complement(x: int) -> int {
    if x < 0 {
        x + 0x1_0000_0000_0000_0000
    } else {
        x
    }
}

/// The zig-zag form of a number: small magnitudes of either sign are small.
pub open spec fn zigzag(x: int) -> int {
    if x < 0 {
        -2 * x - 1
    } else {
        2 * x
    }
}

/// Whether a varint is what protobuf writes for some value of the scalar type.
pub open spec fn encodes_scalar(v: int, kind: PayloadFieldKind) -> bool {
    match kind {
        PayloadFieldKind::Bool => v == 0 || v == 1,
        PayloadFieldKind::Int32 | PayloadFieldKind::Enum => exists|x: i32|
            v == #[trigger] twos_complement(x as int),
        PayloadFieldKind::Int64 => exists|x: i64| v == #[trigger] twos_complement(x as int),
        PayloadFieldKind::Uint32 => 0 <= v <= u32::MAX,
        PayloadFieldKind::Uint64 => 0 <= v <= u64::MAX,
        PayloadFieldKind::Sint32 => exists|x: i32| v == #[trigger] zigzag(x as int),
        PayloadFieldKind::Sint64 => exists|x: i64| v == #[trigger] zigzag(x as int),
        _ => false,
    }
}

/// A varint is taken as a scalar of a type exactly when it encodes some value of that
/// type, and its canonical bytes are then its minimal encoding.
pub proof fn varints_of_a_type_are_its_values(v: u64, kind: PayloadFieldKind)
    ensures
        encodes_scalar(v as int, kind) <==> varint_fits(v as nat, kind),
        canonical_value(FieldValue::Varint(v as nat), kind) == (if encodes_scalar(v as int, kind) {
            Some(minimal_varint(v as nat))
        } else {
            None
        }),
{
    let w = v as int;
    if varint_fits(v as nat, kind) {
        if w <= 0x7fff_ffff {
            assert(twos_complement((w as i32) as int) == w);
        } else if w >= 0xffff_ffff_8000_0000 {
            assert(twos_complement(((w - 0x1_0000_0000_0000_0000) as i32) as int) == w);
        }
        if w <= 0x7fff_ffff_ffff_ffff {
            assert(twos_complement((w as i64) as int) == w);
        } else {
            assert(twos_complement(((w - 0x1_0000_0000_0000_0000) as i64) as int) == w);
        }
        if w % 2 == 0 {
            assert(zigzag(((w / 2) as i64) as int) == w);
            if w <= 0xffff_ffff {
                assert(zigzag(((w / 2) as i32) as int) == w);
            }
        } else {
            assert(zigzag(((-(w + 1) / 2) as i64) as int) == w);
            if w <= 0xffff_ffff {
                assert(zigzag(((-(w + 1) / 2) as i32) as int) == w);
            }
        }
    }
}

/// Every value of a declared 32-bit type has a key of its own: the encoding that
/// protobuf gives it is taken for each kind that has such values.
pub proof fn every_32_bit_value_projects(x: i32, u: u32)
    ensures
        canonical_value(
            FieldValue::Varint(twos_complement(x as int) as nat),
            PayloadFieldKind::Int32,
        ) == Some(minimal_varint(twos_complement(x as int) as nat)),
        canonical_value(
            FieldValue::Varint(twos_complement(x as int) as nat),
            PayloadFieldKind::Enum,
        ) == Some(minimal_varint(twos_complement(x as int) as nat)),
        canonical_value(FieldValue::Varint(zigzag(x as int) as nat), PayloadFieldKind::Sint32)
            == Some(minimal_varint(zigzag(x as int) as nat)),
        canonical_value(FieldValue::Varint(u as nat), PayloadFieldKind::Uint32) == Some(
            minimal_varint(u as nat),
        ),
{
}

/// Every value of a declared 64-bit type, and both truth values, have a key of their
/// own.
pub proof fn every_64_bit_value_projects(x: i64, u: u64, b: bool)
    ensures
        canonical_value(
            FieldValue::Varint(twos_complement(x as int) as nat),
            PayloadFieldKind::Int64,
        ) == Some(minimal_varint(twos_complement(x as int) as nat)),
        canonical_value(FieldValue::Varint(zigzag(x as int) as nat), PayloadFieldKind::Sint64)
            == Some(minimal_varint(zigzag(x as int) as nat)),
        canonical_value(FieldValue::Varint(u as nat), PayloadFieldKind::Uint64) == Some(
            minimal_varint(u as nat),
        ),
        canonical_value(
            FieldValue::Varint(
                if b {
                    1
                } else {
                    0
                },
            ),
            PayloadFieldKind::Bool,
        ) == Some(
            seq![
                if b {
                    1u8
                } else {
                    0u8
                },
            ],
        ),
{
}

/// A fixed-width value is taken by its raw bytes for the two types of its width and for
/// no other; a delimited one by its contents, as bytes or as text that is valid UTF-8,
/// up to 4096 of them; and no varint is taken for any of these types.
pub proof fn raw_values_project_to_their_bytes(b: Seq<u8>, v: nat, kind: PayloadFieldKind)
    ensures
        canonical_value(FieldValue::Fixed64(b), kind) == (if kind == PayloadFieldKind::Fixed64
            || kind == PayloadFieldKind::Sfixed64 {
            Some(b)
        } else {
            None
        }),
        canonical_value(FieldValue::Fixed32(b), kind) == (if kind == PayloadFieldKind::Fixed32
            || kind == PayloadFieldKind::Sfixed32 {
            Some(b)
        } else {
            None
        }),
        canonical_value(FieldValue::Delimited(b), kind) matches Some(c) ==> c == b,
        canonical_value(FieldValue::Delimited(b), PayloadFieldKind::Bytes) is Some <==> b.len()
            <= 4096,
        canonical_value(FieldValue::Delimited(b), PayloadFieldKind::String) is Some <==> b.len()
            <= 4096 && valid_utf8(b),
        canonical_value(FieldValue::Delimited(b), kind) is Some ==> kind == PayloadFieldKind::Bytes
            || kind == PayloadFieldKind::String,
        (kind == PayloadFieldKind::Fixed32 || kind == PayloadFieldKind::Sfixed32 || kind
            == PayloadFieldKind::Fixed64 || kind == PayloadFieldKind::Sfixed64 || kind
            == PayloadFieldKind::Bytes || kind == PayloadFieldKind::String) ==> canonical_value(
            FieldValue::Varint(v),
            kind,
        ) is None,
{
}

proof fn lemma_minimal_digits(v: nat, i: int)
    requires
        0 <= i < minimal_varint(v).len(),
    ensures
        minimal_varint(v)[i] % 128 == (v / pow128(i as nat)) % 128,
        minimal_varint(v)[i] >= 128 <==> i < minimal_varint(v).len() - 1,
        v < pow128(minimal_varint(v).len()),
    decreases v,
{
    if v < 128 {
        assert(v / 1 == v);
        assert(pow128(1) == 128) by {
            lemma_pow128_step(0);
        }
    } else {
        let rest = minimal_varint(v / 128);
        assert(rest.len() > 0) by {
            assert(minimal_varint(v / 128).len() >= 1);
        }
        lemma_pow128_step(rest.len());
        if i > 0 {
            lemma_minimal_digits(v / 128, i - 1);
            lemma_pow128_step((i - 1) as nat);
            let p = pow128((i - 1) as nat);
            vstd::arithmetic::div_mod::lemma_div_denominator(v as int, 128, p as int);
            assert(minimal_varint(v)[i] == rest[i - 1]);
        } else {
            lemma_minimal_digits(v / 128, 0);
            assert(pow128(0) == 1);
            assert(v / 1 == v);
        }
    }
}

/// The minimal encoding holds the value's base-128 digits, least significant first, and
/// marks every byte but the last; no digit is left out.
pub proof fn minimal_varints_are_base_128(v: u64, i: int)
    requires
        0 <= i < minimal_varint(v as nat).len(),
    ensures
        minimal_varint(v as nat)[i] % 128 == (v as nat / pow128(i as nat)) % 128,
        minimal_varint(v as nat)[i] >= 128 <==> i < minimal_varint(v as nat).len() - 1,
        v < pow128(minimal_varint(v as nat).len()),
{
    lemma_minimal_digits(v as nat, i);
}

proof fn lemma_tail_ends(s: Seq<u8>, k: nat, n: nat)
    requires
        1 <= n,
        n + k <= 10,
        n <= s.len(),
        forall|i: int| 0 <= i < n - 1 ==> #[trigger] s[i] >= 128,
        s[n - 1] < 128,
    ensures
        varint_tail(s, k) matches Some((_, m)) ==> m == n,
        varint_tail(s, k) is Some <==> n + k < 10 || s[n - 1] <= 1,
    decreases n,
{
    if n > 1 {
        assert(s[0] >= 128);
        assert(s.skip(1)[n - 2] == s[n - 1]);
        lemma_tail_ends(s.skip(1), k + 1, (n - 1) as nat);
    }
}

proof fn lemma_tail_unended(s: Seq<u8>, k: nat)
    requires
        forall|i: int| 0 <= i < s.len() && i + k < 10 ==> #[trigger] s[i] >= 128,
    ensures
        varint_tail(s, k) is None,
    decreases 10 - k,
{
    if k < 10 && s.len() > 0 {
        assert(s[0] >= 128);
        let t = s.skip(1);
        assert forall|i: int| 0 <= i < t.len() && i + (k + 1) < 10 implies #[trigger] t[i]
            >= 128 by {
            assert(t[i] == s[i + 1]);
        }
        lemma_tail_unended(t, k + 1);
    }
}

/// A varint ends at its first byte without a continuation mark, and is read whenever
/// that is among the first ten and its value fits in 64 bits; where no byte ends it, it
/// is truncated or too long and not read at all.
pub proof fn varints_end_at_their_first_unmarked_byte(s: Seq<u8>, n: nat)
    requires
        1 <= n <= 10,
        n <= s.len(),
        forall|i: int| 0 <= i < n - 1 ==> #[trigger] s[i] >= 128,
    ensures
        s[n - 1] < 128 && n < 10 ==> varint_at(s) is Some && varint_at(s)->Some_0.1 == n,
        s[n - 1] < 128 && n == 10 ==> (varint_at(s) is Some <==> s[9] <= 1),
        s[n - 1] >= 128 && (n == 10 || n == s.len()) ==> varint_at(s) is None,
{
    if s[n - 1] < 128 {
        lemma_tail_ends(s, 0, n);
    } else if n == 10 || n == s.len() {
        assert forall|i: int| 0 <= i < s.len() && i + 0 < 10 implies #[trigger] s[i] >= 128 by {
            assert(i < n);
        }
        lemma_tail_unended(s, 0);
    }
}

/// Two readings of a varint differ by what their first bytes differ: the first byte
/// holds the seven lowest bits of the value, and the rest the others.
pub proof fn varint_values_are_little_endian(s: Seq<u8>)
    requires
        varint_at(s) is Some,
    ensures
        varint_at(s)->Some_0.0 % 128 == s[0] % 128,
        s[0] < 128 ==> varint_at(s)->Some_0 == (s[0] as nat, 1nat),
        s[0] >= 128 ==> (varint_at(s.skip(1)) matches Some((v, n)) && varint_at(s)->Some_0 == (
            (s[0] - 128 + 128 * v) as nat,
            n + 1,
        )),
{
    if s[0] >= 128 {
        lemma_tail_shift(s.skip(1), 1);
    }
}

proof fn lemma_tail_shift(s: Seq<u8>, k: nat)
    requires
        k >= 1,
        varint_tail(s, k) is Some,
    ensures
        varint_tail(s, (k - 1) as nat) == varint_tail(s, k),
    decreases 10 - k,
{
    if s[0] >= 128 {
        lemma_tail_shift(s.skip(1), k + 1);
    }
}

/// The key of a field on the wire: its number above three bits of wire type.
pub open spec fn field_key(number: nat, wire: nat) -> Seq<u8> {
    minimal_varint(number * 8 + wire)
}

/// A field is read back as it was written, whatever follows: a varint, eight bytes, a
/// length and that many bytes, or four bytes, each under its own wire type.
pub proof fn fields_are_read_as_written(
    number: nat,
    v: u64,
    eight: Seq<u8>,
    content: Seq<u8>,
    four: Seq<u8>,
    rest: Seq<u8>,
)
    requires
        1 <= number <= 0x1fff_ffff,
        eight.len() == 8,
        content.len() <= u64::MAX,
        four.len() == 4,
    ensures
        ({
            let s = field_key(number, 0) + minimal_varint(v as nat) + rest;
            field_at(s) matches Some((f, n)) && f == (Field {
                number,
                value: FieldValue::Varint(v as nat),
            }) && n == s.len() - rest.len() && s.skip(n as int) == rest
        }),
        ({
            let s = field_key(number, 1) + eight + rest;
            field_at(s) matches Some((f, n)) && f == (Field {
                number,
                value: FieldValue::Fixed64(eight),
            }) && n == s.len() - rest.len() && s.skip(n as int) == rest
        }),
        ({
            let s = field_key(number, 2) + minimal_varint(content.len()) + content + rest;
            field_at(s) matches Some((f, n)) && f == (Field {
                number,
                value: FieldValue::Delimited(content),
            }) && n == s.len() - rest.len() && s.skip(n as int) == rest
        }),
        ({
            let s = field_key(number, 5) + four + rest;
            field_at(s) matches Some((f, n)) && f == (Field {
                number,
                value: FieldValue::Fixed32(four),
            }) && n == s.len() - rest.len() && s.skip(n as int) == rest
        }),
{
    lemma_read_varint_field(number, v, rest);
    lemma_read_raw_field(number, 1, eight, rest);
    lemma_read_delimited_field(number, content, rest);
    lemma_read_raw_field(number, 5, four, rest);
}

proof fn lemma_read_key(number: nat, wire: nat, t: Seq<u8>)
    requires
        1 <= number <= 0x1fff_ffff,
        wire < 8,
    ensures
        ({
            let key = field_key(number, wire);
            &&& varint_at(key + t) == Some((number * 8 + wire, key.len()))
            &&& (key + t).skip(key.len() as int) == t
            &&& (number * 8 + wire) / 8 == number
            &&& (number * 8 + wire) % 8 == wire
        }),
{
    let key = field_key(number, wire);
    varint_roundtrip((number * 8 + wire) as u64, t);
    assert((key + t).skip(key.len() as int) =~= t);
}

proof fn lemma_read_varint_field(number: nat, v: u64, rest: Seq<u8>)
    requires
        1 <= number <= 0x1fff_ffff,
    ensures
        ({
            let s = field_key(number, 0) + minimal_varint(v as nat) + rest;
            field_at(s) matches Some((f, n)) && f == (Field {
                number,
                value: FieldValue::Varint(v as nat),
            }) && n == s.len() - rest.len() && s.skip(n as int) == rest
        }),
{
    let key = field_key(number, 0);
    let t = minimal_varint(v as nat) + rest;
    let s = key + minimal_varint(v as nat) + rest;
    assert(s =~= key + t);
    lemma_read_key(number, 0, t);
    varint_roundtrip(v, rest);
    assert(s.skip((s.len() - rest.len()) as int) =~= rest);
}

proof fn lemma_read_raw_field(number: nat, wire: nat, b: Seq<u8>, rest: Seq<u8>)
    requires
        1 <= number <= 0x1fff_ffff,
        wire == 1 && b.len() == 8 || wire == 5 && b.len() == 4,
    ensures
        ({
            let s = field_key(number, wire) + b + rest;
            field_at(s) matches Some((f, n)) && f == (Field {
                number,
                value: if wire == 1 {
                    FieldValue::Fixed64(b)
                } else {
                    FieldValue::Fixed32(b)
                },
            }) && n == s.len() - rest.len() && s.skip(n as int) == rest
        }),
{
    let key = field_key(number, wire);
    let t = b + rest;
    let s = key + b + rest;
    assert(s =~= key + t);
    lemma_read_key(number, wire, t);
    assert(t.take(b.len() as int) =~= b);
    assert(s.skip((s.len() - rest.len()) as int) =~= rest);
}

proof fn lemma_read_delimited_field(number: nat, content: Seq<u8>, rest: Seq<u8>)
    requires
        1 <= number <= 0x1fff_ffff,
        content.len() <= u64::MAX,
    ensures
        ({
            let s = field_key(number, 2) + minimal_varint(content.len()) + content + rest;
            field_at(s) matches Some((f, n)) && f == (Field {
                number,
                value: FieldValue::Delimited(content),
            }) && n == s.len() - rest.len() && s.skip(n as int) == rest
        }),
{
    let key = field_key(number, 2);
    let len = minimal_varint(content.len());
    let t = len + (content + rest);
    let s = key + len + content + rest;
    assert(s =~= key + t);
    lemma_read_key(number, 2, t);
    varint_roundtrip(content.len() as u64, content + rest);
    assert(t.subrange(len.len() as int, (len.len() + content.len()) as int) =~= content);
    assert(s.skip((s.len() - rest.len()) as int) =~= rest);
}

/// Groups, reserved wire types, the number zero and numbers beyond protobuf's largest
/// are malformed, whatever follows them.
pub proof fn unsupported_fields_are_malformed(s: Seq<u8>)
    requires
        varint_at(s) is Some,
    ensures
        ({
            let tag = varint_at(s)->Some_0.0;
            &&& (tag % 8 == 3 || tag % 8 == 4 || tag % 8 == 6 || tag % 8 == 7) ==> field_at(s) is None
            &&& tag < 8 ==> field_at(s) is None
            &&& tag >= 0x1_0000_0000 ==> field_at(s) is None
            &&& field_at(s) matches Some((f, _)) ==> f.number == tag / 8
        }),
{
}

/// A message is malformed from the first field on that is, and well-formed where every
/// field is: the fields of a message are those it starts with, and those of the rest.
pub proof fn messages_are_read_field_by_field(s: Seq<u8>)
    ensures
        s.len() == 0 ==> fields_of(s).0.len() == 0 && fields_of(s).1,
        s.len() > 0 && field_at(s) is None ==> fields_of(s).0.len() == 0 && !fields_of(s).1,
        field_at(s) matches Some((f, n)) ==> s.len() > 0 && fields_of(s).0.len() > 0
            && fields_of(s).0[0] == f && fields_of(s).0.skip(1) == fields_of(s.skip(n as int)).0
            && fields_of(s).1 == fields_of(s.skip(n as int)).1,
{
    if let Some((f, n)) = field_at(s) {
        field_bounds(s);
        assert(fields_of(s).0.skip(1) =~= fields_of(s.skip(n as int)).0);
    }
}

/// The occurrences of a number are the values of exactly the fields with that number, in
/// order.
pub proof fn occurrences_are_those_of_the_number(before: Seq<Field>, f: Field, target: nat)
    ensures
        occurrences(Seq::empty(), target).len() == 0,
        occurrences(before.push(f), target) == (if f.number == target {
            occurrences(before, target).push(f.value)
        } else {
            occurrences(before, target)
        }),
    decreases before.len(),
{
    if before.len() == 0 {
        assert(before.push(f).skip(1) =~= Seq::empty());
        assert(occurrences(before.push(f).skip(1), target).len() == 0);
        assert(occurrences(before.push(f), target) =~= (if f.number == target {
            occurrences(before, target).push(f.value)
        } else {
            occurrences(before, target)
        }));
    } else {
        occurrences_are_those_of_the_number(before.skip(1), f, target);
        assert(before.push(f).skip(1) =~= before.skip(1).push(f));
        assert(before.push(f)[0] == before[0]);
        assert(occurrences(before.push(f), target) =~= (if f.number == target {
            occurrences(before, target).push(f.value)
        } else {
            occurrences(before, target)
        }));
    }
}

/// A varint that is the only occurrence of the declared field projects to its minimal
/// encoding exactly when it encodes a value of the declared type.
pub proof fn sole_varints_project_by_type(
    s: Seq<u8>,
    target: nat,
    kind: PayloadFieldKind,
    v: nat,
)
    requires
        fields_of(s).1,
        occurrences(fields_of(s).0, target) == seq![FieldValue::Varint(v)],
    ensures
        encodes_scalar(v as int, kind) ==> scan_message(s, target, kind) == Ok::<
            Option<Seq<u8>>,
            (),
        >(Some(minimal_varint(v))),
        !encodes_scalar(v as int, kind) ==> !(scan_message(s, target, kind) matches Ok(Some(_))),
{
    lemma_varint_value(s, target, 0);
    assert(occurrences(fields_of(s).0, target)[0] == FieldValue::Varint(v));
    varints_of_a_type_are_its_values(v as u64, kind);
    scan_finds_the_declared_value(s, target, kind);
}

/// Bytes or text that are the only occurrence of the declared field project to
/// themselves, and so do fixed-width values.
pub proof fn sole_raw_values_project_to_themselves(
    s: Seq<u8>,
    target: nat,
    kind: PayloadFieldKind,
    b: Seq<u8>,
)
    requires
        fields_of(s).1,
        occurrences(fields_of(s).0, target).len() == 1,
    ensures
        ({
            let value = occurrences(fields_of(s).0, target)[0];
            let found = scan_message(s, target, kind) == Ok::<Option<Seq<u8>>, ()>(Some(b));
            &&& value == FieldValue::Delimited(b) && b.len() <= 4096 && (kind
                == PayloadFieldKind::Bytes || kind == PayloadFieldKind::String && valid_utf8(b))
                ==> found
            &&& value == FieldValue::Fixed64(b) && (kind == PayloadFieldKind::Fixed64 || kind
                == PayloadFieldKind::Sfixed64) ==> found
            &&& value == FieldValue::Fixed32(b) && (kind == PayloadFieldKind::Fixed32 || kind
                == PayloadFieldKind::Sfixed32) ==> found
        }),
{
    scan_finds_the_declared_value(s, target, kind);
}

/// A field that is absent, that occurs more than once, or that stands in a malformed
/// message never projects.
pub proof fn only_sole_occurrences_project(s: Seq<u8>, target: nat, kind: PayloadFieldKind)
    requires
        !fields_of(s).1 || occurrences(fields_of(s).0, target).len() != 1,
    ensures
        !(scan_message(s, target, kind) matches Ok(Some(_))),
{
    scan_finds_the_declared_value(s, target, kind);
}

} // verus!
