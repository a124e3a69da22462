//! The package manifest and the rules on its integrity fields.
use crate::pack::fault::{PackError, PackErrorView};
use crate::text::{cat, same_text};
use vstd::prelude::*;
use vstd::string::*;

verus! {

/// What the packaged binary is.
#[derive(Debug, Clone, Copy, PartialEq, Eq, Structural)]
pub enum BinaryKind {
    /// A WebAssembly component.
    Component,
    /// A native dynamic library.
    DynamicLibrary,
}

/// The packaged binary.
#[derive(Debug, Clone, PartialEq, Eq)]
pub struct BinaryEntry {
    pub path: String,
    pub target: String,
    pub hash: String,
    pub size: Option<u64>,
    pub kind: Option<BinaryKind>,
}

/// A packaged resource.
#[derive(Debug, Clone, PartialEq, Eq)]
pub struct ResourceEntry {
    pub path: String,
    pub hash: String,
}

/// A packaged proto file.
#[derive(Debug, Clone, PartialEq, Eq)]
pub struct ProtoFileEntry {
    pub name: String,
    pub path: String,
    pub hash: String,
}

/// The packaged dependency lock file.
#[derive(Debug, Clone, PartialEq, Eq)]
pub struct LockFileEntry {
    pub path: String,
    pub hash: String,
}

/// Descriptive metadata.
#[derive(Debug, Clone, PartialEq, Eq, Default)]
pub struct ManifestMetadata {
    pub description: Option<String>,
    pub license: Option<String>,
}

/// The signed description of a package.
#[derive(Debug, Clone, PartialEq, Eq)]
pub struct PackageManifest {
    pub manufacturer: String,
    pub name: String,
    pub version: String,
    pub binary: BinaryEntry,
    pub signature_algorithm: String,
    pub signing_key_id: Option<String>,
    pub resources: Vec<ResourceEntry>,
    pub proto_files: Vec<ProtoFileEntry>,
    pub lock_file: Option<LockFileEntry>,
    pub metadata: ManifestMetadata,
}

/// Which part of a package a payload is.
#[derive(Debug, Clone, Copy, PartialEq, Eq, Structural)]
pub enum PayloadRole {
    Binary,
    Resource,
    Proto,
    LockFile,
}

/// One payload that a manifest names.
#[derive(Debug)]
pub struct Payload {
    pub role: PayloadRole,
    pub path: String,
    pub hash: String,
}

/// Contents of a [`Payload`].
pub struct PayloadView {
    pub role: PayloadRole,
    pub path: Seq<char>,
    pub hash: Seq<char>,
}

impl View for Payload {
    type V = PayloadView;

    open spec fn view(&self) -> PayloadView {
        PayloadView { role: self.role, path: self.path@, hash: self.hash@ }
    }
}

/// The resources of a manifest as payloads.
pub open spec fn resource_payloads(m: PackageManifest) -> Seq<PayloadView> {
    m.resources@.map_values(
        |e: ResourceEntry|
            PayloadView { role: PayloadRole::Resource, path: e.path@, hash: e.hash@ },
    )
}

/// The proto files of a manifest as payloads.
pub open spec fn proto_payloads(m: PackageManifest) -> Seq<PayloadView> {
    m.proto_files@.map_values(
        |e: ProtoFileEntry|
            PayloadView { role: PayloadRole::Proto, path: e.path@, hash: e.hash@ },
    )
}

/// The lock file of a manifest, if any, as a payload.
pub open spec fn lock_payloads(m: PackageManifest) -> Seq<PayloadView> {
    match m.lock_file {
        Some(e) => seq![
            PayloadView { role: PayloadRole::LockFile, path: e.path@, hash: e.hash@ },
        ],
        None => Seq::empty(),
    }
}

/// Everything that a manifest signs: the binary, then resources, proto files
/// and the lock file. A path that is named twice counts twice.
pub open spec fn signed_payloads(m: PackageManifest) -> Seq<PayloadView> {
    seq![
        PayloadView {
            role: PayloadRole::Binary,
            path: m.binary.path@,
            hash: m.binary.hash@,
        },
    ] + resource_payloads(m) + proto_payloads(m) + lock_payloads(m)
}

/// The payload contents of a list.
pub open spec fn payload_views(payloads: Seq<Payload>) -> Seq<PayloadView> {
    payloads.map_values(|p: Payload| p@)
}

impl PackageManifest {
    /// Everything that this manifest signs, in verification order.
    pub(crate) fn payloads(&self) -> (r: Vec<Payload>)
        ensures
            payload_views(r@) == signed_payloads(*self),
            r@.len() == 1 + self.resources@.len() + self.proto_files@.len() + (
            if self.lock_file is Some {
                1int
            } else {
                0
            }),
    {
        let mut out: Vec<Payload> = Vec::new();
        out.push(
            Payload {
                role: PayloadRole::Binary,
                path: self.binary.path.clone(),
                hash: self.binary.hash.clone(),
            },
        );
        let ghost first = signed_payloads(*self).take(1);
        assert(payload_views(out@) =~= first);
        let mut i: usize = 0;
        while i < self.resources.len()
            invariant
                i <= self.resources@.len(),
                payload_views(out@) == first + resource_payloads(*self).take(i as int),
            decreases self.resources@.len() - i,
        {
            let ghost before = out@;
            let entry: &ResourceEntry = &self.resources[i];
            out.push(
                Payload {
                    role: PayloadRole::Resource,
                    path: entry.path.clone(),
                    hash: entry.hash.clone(),
                },
            );
            assert(payload_views(out@) =~= payload_views(before).push(
                resource_payloads(*self)[i as int],
            ));
            assert(resource_payloads(*self).take(i + 1) =~= resource_payloads(*self).take(
                i as int,
            ).push(resource_payloads(*self)[i as int]));
            i = i + 1;
        }
        let ghost second = first + resource_payloads(*self);
        assert(payload_views(out@) =~= second);
        let mut i: usize = 0;
        while i < self.proto_files.len()
            invariant
                i <= self.proto_files@.len(),
                payload_views(out@) == second + proto_payloads(*self).take(i as int),
            decreases self.proto_files@.len() - i,
        {
            let ghost before = out@;
            let entry: &ProtoFileEntry = &self.proto_files[i];
            out.push(
                Payload {
                    role: PayloadRole::Proto,
                    path: entry.path.clone(),
                    hash: entry.hash.clone(),
                },
            );
            assert(payload_views(out@) =~= payload_views(before).push(
                proto_payloads(*self)[i as int],
            ));
            assert(proto_payloads(*self).take(i + 1) =~= proto_payloads(*self).take(i as int).push(
                proto_payloads(*self)[i as int],
            ));
            i = i + 1;
        }
        let ghost third = second + proto_payloads(*self);
        assert(payload_views(out@) =~= third);
        match &self.lock_file {
            Some(entry) => {
                let ghost before = out@;
                out.push(
                    Payload {
                        role: PayloadRole::LockFile,
                        path: entry.path.clone(),
                        hash: entry.hash.clone(),
                    },
                );
                assert(payload_views(out@) =~= payload_views(before).push(lock_payloads(*self)[0]));
            },
            None => {},
        }
        assert(payload_views(out@) =~= signed_payloads(*self));
        out
    }
}

/// Whether a character is an ASCII hexadecimal digit.
pub open spec fn is_hex_digit(c: char) -> bool {
    ('0' <= c && c <= '9') || ('a' <= c && c <= 'f') || ('A' <= c && c <= 'F')
}

/// Whether a text is a hex-encoded SHA-256 digest: 64 hexadecimal digits of
/// either case.
pub open spec fn is_sha256_text(value: Seq<char>) -> bool {
    &&& value.len() == 64
    &&& forall|i: int| 0 <= i < value.len() ==> is_hex_digit(#[trigger] value[i])
}

fn hex_digit_byte(b: u8) -> (r: bool)
    ensures
        r == is_hex_digit(b as char),
{
    (b >= 48 && b <= 57) || (b >= 97 && b <= 102) || (b >= 65 && b <= 70)
}

/// Whether `value` is 64 hexadecimal digits.
pub fn is_sha256_hex(value: &str) -> (r: bool)
    ensures
        r == is_sha256_text(value@),
{
    if !value.is_ascii() {
        assert(!is_sha256_text(value@)) by {
            if is_sha256_text(value@) {
                assert(vstd::utf8::is_ascii_chars(value@)) by {
                    assert forall|i: int| 0 <= i < value@.len() implies '\0' <= #[trigger] value@[i]
                        <= '\u{7f}' by {
                        assert(is_hex_digit(value@[i]));
                    }
                }
            }
        }
        return false;
    }
    let bytes: &[u8] = value.as_bytes();
    proof {
        vstd::string::is_ascii_spec_bytes(value);
    }
    assert(bytes@.len() == value@.len());
    if bytes.len() != 64 {
        return false;
    }
    let mut i: usize = 0;
    while i < bytes.len()
        invariant
            i <= bytes@.len(),
            bytes@.len() == value@.len(),
            value@.len() == 64,
            forall|j: int| 0 <= j < bytes@.len() ==> bytes@[j] as char == #[trigger] value@[j],
            forall|j: int| 0 <= j < i ==> is_hex_digit(#[trigger] value@[j]),
        decreases bytes@.len() - i,
    {
        if !hex_digit_byte(bytes[i]) {
            assert(!is_hex_digit(value@[i as int]));
            return false;
        }
        assert(is_hex_digit(value@[i as int]));
        i = i + 1;
    }
    true
}

/// The error for a hash field that is not a SHA-256 digest, if it is not.
pub open spec fn hash_fault(field: Seq<char>, value: Seq<char>) -> Option<PackErrorView> {
    if is_sha256_text(value) {
        None
    } else {
        Some(
            PackErrorView::ManifestParseError(
                field + " must be a 64-character SHA-256 hex string"@,
            ),
        )
    }
}

/// The name of the manifest field that holds a payload's hash.
pub open spec fn hash_field(role: PayloadRole) -> Seq<char> {
    match role {
        PayloadRole::Binary => "binary.hash"@,
        PayloadRole::Resource => "resources[].hash"@,
        PayloadRole::Proto => "proto_files[].hash"@,
        PayloadRole::LockFile => "lock_file.hash"@,
    }
}

/// The first payload from position `i` on whose hash is not a digest.
pub open spec fn hash_fault_from(payloads: Seq<PayloadView>, i: nat) -> Option<PackErrorView>
    decreases payloads.len() - i,
{
    if i >= payloads.len() {
        None
    } else {
        match hash_fault(hash_field(payloads[i as int].role), payloads[i as int].hash) {
            Some(e) => Some(e),
            None => hash_fault_from(payloads, i + 1),
        }
    }
}

/// What is wrong with a manifest's integrity fields: the algorithm must be
/// `ed25519`, and every hash a SHA-256 digest; the first offence is reported.
pub open spec fn integrity_fault(m: PackageManifest) -> Option<PackErrorView> {
    if m.signature_algorithm@ != "ed25519"@ {
        Some(PackErrorView::ManifestParseError("signature_algorithm must be `ed25519`"@))
    } else {
        hash_fault_from(signed_payloads(m), 0)
    }
}

fn validate_sha256(field: &str, value: &str) -> (r: Result<(), PackError>)
    ensures
        match hash_fault(field@, value@) {
            None => r is Ok,
            Some(error) => r matches Err(e) && e@ == error,
        },
{
    if is_sha256_hex(value) {
        Ok(())
    } else {
        Err(
            PackError::ManifestParseError(
                cat(field, " must be a 64-character SHA-256 hex string"),
            ),
        )
    }
}

fn hash_field_name(role: PayloadRole) -> (r: &'static str)
    ensures
        r@ == hash_field(role),
{
    match role {
        PayloadRole::Binary => "binary.hash",
        PayloadRole::Resource => "resources[].hash",
        PayloadRole::Proto => "proto_files[].hash",
        PayloadRole::LockFile => "lock_file.hash",
    }
}

/// Check the manifest's signature algorithm and the form of every hash.
pub fn validate_manifest_integrity_fields(manifest: &PackageManifest) -> (r: Result<(), PackError>)
    ensures
        match integrity_fault(*manifest) {
            None => r is Ok,
            Some(error) => r matches Err(e) && e@ == error,
        },
{
    if !same_text(manifest.signature_algorithm.as_str(), "ed25519") {
        return Err(
            PackError::ManifestParseError("signature_algorithm must be `ed25519`".to_owned()),
        );
    }
    let payloads: Vec<Payload> = manifest.payloads();
    let ghost all = signed_payloads(*manifest);
    let mut i: usize = 0;
    while i < payloads.len()
        invariant
            i <= payloads@.len(),
            all == payload_views(payloads@),
            integrity_fault(*manifest) == hash_fault_from(all, i as nat),
        decreases payloads@.len() - i,
    {
        assert(all[i as int] == payloads@[i as int]@);
        match validate_sha256(hash_field_name(payloads[i].role), payloads[i].hash.as_str()) {
            Ok(_) => {},
            Err(e) => return Err(e),
        }
        i = i + 1;
    }
    Ok(())
}

// ── laws ─────────────────────────────────────────────────────────────────────

/// A manifest signs every file that it names, each once for every time it is named: the
/// binary first, then every resource, every proto file and the lock file, by the path
/// and the hash of its own entry.
pub proof fn every_named_file_is_signed(m: PackageManifest, i: int, j: int)
    ensures
        ({
            let all = signed_payloads(m);
            let resources = m.resources@.len();
            let protos = m.proto_files@.len();
            &&& all.len() == 1 + resources + protos + (if m.lock_file is Some {
                1int
            } else {
                0
            })
            &&& all[0].role == PayloadRole::Binary
            &&& all[0].path == m.binary.path@
            &&& all[0].hash == m.binary.hash@
            &&& 0 <= i < resources ==> {
                &&& all[1 + i].role == PayloadRole::Resource
                &&& all[1 + i].path == m.resources@[i].path@
                &&& all[1 + i].hash == m.resources@[i].hash@
            }
            &&& 0 <= j < protos ==> {
                &&& all[1 + resources + j].role == PayloadRole::Proto
                &&& all[1 + resources + j].path == m.proto_files@[j].path@
                &&& all[1 + resources + j].hash == m.proto_files@[j].hash@
            }
            &&& m.lock_file matches Some(lock) ==> {
                &&& all.last().role == PayloadRole::LockFile
                &&& all.last().path == lock.path@
                &&& all.last().hash == lock.hash@
            }
        }),
{
}

proof fn lemma_no_hash_fault(payloads: Seq<PayloadView>, i: nat)
    ensures
        hash_fault_from(payloads, i) is None <==> forall|k: int|
            i <= k < payloads.len() ==> is_sha256_text(#[trigger] payloads[k].hash),
    decreases payloads.len() - i,
{
    if i < payloads.len() {
        lemma_no_hash_fault(payloads, i + 1);
        if hash_fault_from(payloads, i) is None {
            assert(is_sha256_text(payloads[i as int].hash));
        }
    }
}

/// A text is a digest exactly when it is 64 characters long and each is a decimal digit or
/// a letter from `a` to `f`, of either case.
pub proof fn digests_are_64_hex_digits(value: Seq<char>)
    ensures
        is_sha256_text(value) <==> value.len() == 64 && forall|i: int|
            0 <= i < 64 ==> {
                let c = #[trigger] value[i] as int;
                48 <= c <= 57 || 65 <= c <= 70 || 97 <= c <= 102
            },
{
    if value.len() == 64 && forall|i: int|
        0 <= i < 64 ==> {
            let c = #[trigger] value[i] as int;
            48 <= c <= 57 || 65 <= c <= 70 || 97 <= c <= 102
        } {
        assert forall|i: int| 0 <= i < value.len() implies is_hex_digit(#[trigger] value[i]) by {
            let c = value[i] as int;
        }
    }
    if is_sha256_text(value) {
        assert forall|i: int| 0 <= i < 64 implies {
            let c = #[trigger] value[i] as int;
            48 <= c <= 57 || 65 <= c <= 70 || 97 <= c <= 102
        } by {
            assert(is_hex_digit(value[i]));
        }
    }
}

/// A manifest's integrity fields are sound exactly when its algorithm is `ed25519` and the
/// hash of every file that it names is a digest.
pub proof fn sound_manifests_name_digests(m: PackageManifest)
    ensures
        integrity_fault(m) is None <==> {
            &&& m.signature_algorithm@ == "ed25519"@
            &&& is_sha256_text(m.binary.hash@)
            &&& forall|i: int|
                0 <= i < m.resources@.len() ==> is_sha256_text(#[trigger] m.resources@[i].hash@)
            &&& forall|j: int|
                0 <= j < m.proto_files@.len() ==> is_sha256_text(#[trigger] m.proto_files@[j].hash@)
            &&& m.lock_file matches Some(lock) ==> is_sha256_text(lock.hash@)
        },
{
    let all = signed_payloads(m);
    let resources = m.resources@.len();
    lemma_no_hash_fault(all, 0);
    every_named_file_is_signed(m, 0, 0);
    if integrity_fault(m) is None {
        assert(is_sha256_text(all[0].hash));
        assert forall|i: int| 0 <= i < resources implies is_sha256_text(
            #[trigger] m.resources@[i].hash@,
        ) by {
            every_named_file_is_signed(m, i, 0);
            assert(is_sha256_text(all[1 + i].hash));
        }
        assert forall|j: int| 0 <= j < m.proto_files@.len() implies is_sha256_text(
            #[trigger] m.proto_files@[j].hash@,
        ) by {
            every_named_file_is_signed(m, 0, j);
            assert(is_sha256_text(all[1 + resources + j].hash));
        }
        if m.lock_file is Some {
            assert(is_sha256_text(all[all.len() - 1].hash));
        }
    } else if m.signature_algorithm@ == "ed25519"@ {
        let k = choose|k: int| 0 <= k < all.len() && !is_sha256_text(#[trigger] all[k].hash);
        if 1 <= k < 1 + resources {
            every_named_file_is_signed(m, k - 1, 0);
            assert(!is_sha256_text(m.resources@[k - 1].hash@));
        } else if 1 + resources <= k < 1 + resources + m.proto_files@.len() {
            every_named_file_is_signed(m, 0, k - 1 - resources);
            assert(!is_sha256_text(m.proto_files@[k - 1 - resources].hash@));
        }
    }
}

/// The complaint about a hash names the field that it stands in, and a hash that is a
/// digest causes none.
pub proof fn hash_complaints_name_the_field(role: PayloadRole, value: Seq<char>)
    ensures
        hash_fault(hash_field(role), value) is None <==> is_sha256_text(value),
        hash_fault(hash_field(role), value) matches Some(e) ==> e matches
            PackErrorView::ManifestParseError(t) && hash_field(role).is_prefix_of(t),
        hash_field(PayloadRole::Binary) == "binary.hash"@,
        hash_field(PayloadRole::Resource) == "resources[].hash"@,
        hash_field(PayloadRole::Proto) == "proto_files[].hash"@,
        hash_field(PayloadRole::LockFile) == "lock_file.hash"@,
{
    if !is_sha256_text(value) {
        let t = hash_field(role) + " must be a 64-character SHA-256 hex string"@;
        assert(t.take(hash_field(role).len() as int) =~= hash_field(role));
    }
}

} // verus!
