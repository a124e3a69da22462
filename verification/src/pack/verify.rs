//! Package verification: signature, manifest and payload digests, all under
//! decompression limits.
use crate::pack::archive;
use crate::pack::archive::{
    declared_message, entry_size, open_archive, read_zip_entry_bounded, sha256_zip_entry_bounded,
};
use crate::pack::fault;
use crate::pack::fault::{required_entry, PackError, PackErrorView};
use crate::pack::manifest;
use crate::pack::manifest::{
    validate_manifest_integrity_fields, PackageManifest, Payload, PayloadRole, PayloadView,
};
use crate::text;
use crate::text::{cat, cat3, cat5, decimal, from_utf8, same_text};
use ed25519_dalek::{Signature, VerifyingKey};
use std::io::Cursor;
use vstd::prelude::*;
use vstd::utf8::*;

verus! {

/// Size of an Ed25519 signature, and the limit on `manifest.sig`.
pub const MAX_SIGNATURE_BYTES: usize = 64;

/// Limit on `manifest.toml`: 1 MiB.
pub const MAX_MANIFEST_BYTES: usize = 1048576;

/// Default decompressed-size limit for each binary or auxiliary payload: 64
/// MiB.
pub const DEFAULT_MAX_VERIFIED_ENTRY_BYTES: usize = 67108864;

/// Default maximum number of signed payload entries in one package.
pub const DEFAULT_MAX_VERIFIED_ENTRIES: usize = 1024;

/// Decompression limits applied while verifying signed package payloads.
#[derive(Debug, Clone, Copy, PartialEq, Eq, Structural)]
pub struct PackageVerificationLimits {
    /// Maximum decompressed bytes for any one payload entry.
    pub max_entry_bytes: usize,
    /// Maximum cumulative decompressed bytes across the binary, resources,
    /// proto files, and optional lock file.
    pub max_total_bytes: usize,
    /// Maximum number of those payload entries, including the binary.
    pub max_entries: usize,
}

impl PackageVerificationLimits {
    /// Derive package verification limits from one component-byte limit.
    ///
    /// The component limit caps both each entry and the cumulative signed
    /// payload set; the fixed entry-count ceiling prevents manifests from
    /// multiplying work through thousands of tiny or duplicate entries.
    pub fn from_max_component_bytes(max_component_bytes: usize) -> (r: Self)
        ensures
            r == (PackageVerificationLimits {
                max_entry_bytes: max_component_bytes,
                max_total_bytes: max_component_bytes,
                max_entries: DEFAULT_MAX_VERIFIED_ENTRIES,
            }),
            r.max_entries == 1024,
    {
        PackageVerificationLimits {
            max_entry_bytes: max_component_bytes,
            max_total_bytes: max_component_bytes,
            max_entries: DEFAULT_MAX_VERIFIED_ENTRIES,
        }
    }
}

impl Default for PackageVerificationLimits {
    fn default() -> (r: PackageVerificationLimits)
        ensures
            r == (PackageVerificationLimits {
                max_entry_bytes: DEFAULT_MAX_VERIFIED_ENTRY_BYTES,
                max_total_bytes: DEFAULT_MAX_VERIFIED_ENTRY_BYTES,
                max_entries: DEFAULT_MAX_VERIFIED_ENTRIES,
            }),
            r.max_entry_bytes == 67108864,
            r.max_total_bytes == 67108864,
            r.max_entries == 1024,
    {
        PackageVerificationLimits::from_max_component_bytes(DEFAULT_MAX_VERIFIED_ENTRY_BYTES)
    }
}

/// Result of a successful package verification: the parsed manifest along with
/// the raw bytes needed for transparent forwarding of the signature.
#[derive(Debug, Clone)]
pub struct VerifiedPackage {
    /// Parsed package manifest.
    pub manifest: PackageManifest,
    /// Raw `manifest.toml` bytes as stored in the package (the signed payload).
    pub manifest_raw: Vec<u8>,
    /// Raw `manifest.sig` bytes (64-byte Ed25519 signature).
    pub sig_raw: Vec<u8>,
}

/// What is wrong with 32 bytes as an Ed25519 public key, if anything.
pub uninterp spec fn ed25519_key_fault(key: Seq<u8>) -> Option<Seq<char>>;

/// What strict Ed25519 verification says of a public key, a message and a
/// signature: accepted, or the text of the error.
pub uninterp spec fn ed25519_verdict(
    key: Seq<u8>,
    message: Seq<u8>,
    signature: Seq<u8>,
) -> Result<(), Seq<char>>;

/// Calls `VerifyingKey::from_bytes` on the key, and gives the printed form of its
/// error where it is refused. That depends on the bytes alone.
#[verifier::external_body]
fn key_fault(key: &[u8; 32]) -> (r: Option<String>)
    ensures
        match ed25519_key_fault(key@) {
            None => r is None,
            Some(t) => r matches Some(e) && e@ == t,
        },
{
    VerifyingKey::from_bytes(key).err().map(|e| e.to_string())
}

/// Calls `VerifyingKey::verify_strict` of an accepted key on the message and the
/// signature. Whether the signature is accepted, and the printed form of the
/// error where it is not, depends on the three byte strings alone.
#[verifier::external_body]
fn verify_strict(key: &[u8; 32], message: &[u8], signature: &[u8; 64]) -> (r: Result<(), String>)
    requires
        ed25519_key_fault(key@) is None,
    ensures
        match ed25519_verdict(key@, message@, signature@) {
            Ok(_) => r is Ok,
            Err(t) => r matches Err(e) && e@ == t,
        },
{
    VerifyingKey::from_bytes(key).and_then(
        |key| key.verify_strict(message, &Signature::from_bytes(signature)),
    ).map_err(|e| e.to_string())
}

/// Whether a key takes a signature over a message: the bytes are a key, and
/// strict verification accepts.
pub open spec fn signature_fault(key: Seq<u8>, message: Seq<u8>, signature: Seq<u8>) -> Option<
    Seq<char>,
> {
    match ed25519_key_fault(key) {
        Some(t) => Some(t),
        None => match ed25519_verdict(key, message, signature) {
            Err(t) => Some(t),
            Ok(_) => None,
        },
    }
}

/// Check a signature over a message, and give the text of the refusal.
fn check_signature(key: &[u8; 32], message: &[u8], signature: &[u8; 64]) -> (r: Option<String>)
    ensures
        match signature_fault(key@, message@, signature@) {
            None => r is None,
            Some(t) => r matches Some(e) && e@ == t,
        },
{
    match key_fault(key) {
        Some(t) => Some(t),
        None => match verify_strict(key, message, signature) {
            Ok(_) => None,
            Err(t) => Some(t),
        },
    }
}

/// The 64 bytes of a signature as an array.
fn signature_array(sig: &Vec<u8>) -> (r: [u8; 64])
    requires
        sig@.len() == 64,
    ensures
        r@ == sig@,
{
    let mut out: [u8; 64] = [0u8; 64];
    let mut i: usize = 0;
    while i < 64
        invariant
            i <= 64,
            sig@.len() == 64,
            out@.len() == 64,
            forall|j: int| 0 <= j < i ==> out@[j] == sig@[j],
        decreases 64 - i,
    {
        out[i] = sig[i];
        i = i + 1;
    }
    assert(out@ =~= sig@);
    out
}

/// The signature of a package: exactly 64 bytes of `manifest.sig`.
pub open spec fn package_signature(bytes: Seq<u8>) -> Result<Seq<u8>, PackErrorView> {
    match archive::bounded_entry(bytes, "manifest.sig"@, MAX_SIGNATURE_BYTES) {
        Err(e) => Err(fault::required_entry_view(e, PackErrorView::SignatureNotFound)),
        Ok(sig) => if sig.len() != 64 {
            Err(
                PackErrorView::SignatureVerificationFailed(
                    "manifest.sig must be exactly 64 bytes, got "@ + text::decimal_text(sig.len()),
                ),
            )
        } else {
            Ok(sig)
        },
    }
}

/// The raw manifest of a package: at most 1 MiB of `manifest.toml`.
pub open spec fn package_manifest_bytes(bytes: Seq<u8>) -> Result<Seq<u8>, PackErrorView> {
    match archive::bounded_entry(bytes, "manifest.toml"@, MAX_MANIFEST_BYTES) {
        Err(e) => Err(fault::required_entry_view(e, PackErrorView::ManifestNotFound)),
        Ok(raw) => Ok(raw),
    }
}

/// The raw manifest as text.
pub open spec fn manifest_text(raw: Seq<u8>) -> Result<Seq<char>, PackErrorView> {
    if valid_utf8(raw) {
        Ok(decode_utf8(raw))
    } else {
        Err(
            PackErrorView::ManifestParseError(
                "manifest is not valid UTF-8: "@ + text::utf8_error_text(raw),
            ),
        )
    }
}

/// The signature and the raw manifest of a package whose signature over the
/// manifest the key accepts and whose manifest is text.
pub open spec fn authenticated(bytes: Seq<u8>, key: Seq<u8>) -> Result<
    (Seq<u8>, Seq<u8>),
    PackErrorView,
> {
    match archive::zip_open_fault(bytes) {
        Some(fault) => Err(PackErrorView::ZipError(fault)),
        None => match package_signature(bytes) {
            Err(e) => Err(e),
            Ok(sig) => match package_manifest_bytes(bytes) {
                Err(e) => Err(e),
                Ok(raw) => match signature_fault(key, raw, sig) {
                    Some(t) => Err(
                        PackErrorView::SignatureVerificationFailed(
                            "Ed25519 verification failed: "@ + t,
                        ),
                    ),
                    None => match manifest_text(raw) {
                        Err(e) => Err(e),
                        Ok(_) => Ok((sig, raw)),
                    },
                },
            },
        },
    }
}

/// Read the signature out of an opened archive.
pub(crate) fn read_signature_entry(archive: &mut zip::ZipArchive<Cursor<Vec<u8>>>) -> (r: Result<
    Vec<u8>,
    PackError,
>)
    ensures
        archive::archive_bytes(*final(archive)) == archive::archive_bytes(*old(archive)),
        match package_signature(archive::archive_bytes(*old(archive))) {
            Ok(sig) => r matches Ok(s) && s@ == sig && s@.len() == 64,
            Err(error) => r matches Err(e) && e@ == error,
        },
{
    let sig: Vec<u8> = match read_zip_entry_bounded(archive, "manifest.sig", MAX_SIGNATURE_BYTES) {
        Ok(sig) => sig,
        Err(e) => return Err(required_entry(e, PackError::SignatureNotFound)),
    };
    if sig.len() != 64 {
        let n: String = decimal(sig.len() as u64);
        return Err(
            PackError::SignatureVerificationFailed(
                cat("manifest.sig must be exactly 64 bytes, got ", n.as_str()),
            ),
        );
    }
    Ok(sig)
}

/// Read the raw manifest out of an opened archive.
pub(crate) fn read_manifest_entry(archive: &mut zip::ZipArchive<Cursor<Vec<u8>>>) -> (r: Result<
    Vec<u8>,
    PackError,
>)
    ensures
        archive::archive_bytes(*final(archive)) == archive::archive_bytes(*old(archive)),
        match package_manifest_bytes(archive::archive_bytes(*old(archive))) {
            Ok(raw) => r matches Ok(m) && m@ == raw,
            Err(error) => r matches Err(e) && e@ == error,
        },
{
    match read_zip_entry_bounded(archive, "manifest.toml", MAX_MANIFEST_BYTES) {
        Ok(raw) => Ok(raw),
        Err(e) => Err(required_entry(e, PackError::ManifestNotFound)),
    }
}

/// The raw manifest as text.
pub(crate) fn manifest_str(raw: &[u8]) -> (r: Result<&str, PackError>)
    ensures
        match manifest_text(raw@) {
            Ok(t) => r matches Ok(s) && s@ == t,
            Err(error) => r matches Err(e) && e@ == error,
        },
{
    match from_utf8(raw) {
        Ok(s) => Ok(s),
        Err(t) => Err(
            PackError::ManifestParseError(cat("manifest is not valid UTF-8: ", t.as_str())),
        ),
    }
}

// ── payload limits and digests ───────────────────────────────────────────────

/// The declared size that one payload adds, or why it is refused before
/// anything is decompressed. `entries` and `total` count the payloads and bytes
/// before it.
pub open spec fn preflight_step(
    bytes: Seq<u8>,
    name: Seq<char>,
    limits: PackageVerificationLimits,
    entries: nat,
    total: nat,
) -> Result<nat, PackErrorView> {
    if entries + 1 > usize::MAX {
        Err(PackErrorView::InvalidPackage("signed payload entry count overflows usize"@))
    } else if entries + 1 > limits.max_entries {
        Err(
            PackErrorView::InvalidPackage(
                "signed payload has "@ + text::decimal_text(entries + 1)
                    + " entries, exceeds limit "@ + text::decimal_text(limits.max_entries as nat),
            ),
        )
    } else {
        match archive::zip_entry_size(bytes, name) {
            Err(fault) => Err(
                fault::required_entry_view(
                    PackErrorView::ZipError(fault),
                    PackErrorView::BinaryNotFound(name),
                ),
            ),
            Ok(size) => if size > usize::MAX {
                Err(
                    PackErrorView::InvalidPackage(
                        "ZIP entry `"@ + name + "` declares "@ + text::decimal_text(size as nat)
                            + " bytes, cannot fit in usize"@,
                    ),
                )
            } else if size > limits.max_entry_bytes {
                Err(
                    PackErrorView::InvalidPackage(
                        archive::declares_too_much(
                            name,
                            size as nat,
                            limits.max_entry_bytes as nat,
                        ),
                    ),
                )
            } else if total + size > usize::MAX {
                Err(PackErrorView::InvalidPackage("signed payload size overflows usize"@))
            } else if total + size > limits.max_total_bytes {
                Err(
                    PackErrorView::InvalidPackage(
                        "signed payload declares "@ + text::decimal_text((total + size) as nat)
                            + " cumulative bytes at `"@ + name + "`, exceeds limit "@
                            + text::decimal_text(limits.max_total_bytes as nat),
                    ),
                )
            } else {
                Ok(size as nat)
            },
        }
    }
}

/// The first payload from position `i` on that the limits refuse by its
/// declared size, where `total` bytes were declared before it.
pub open spec fn preflight_from(
    bytes: Seq<u8>,
    payloads: Seq<PayloadView>,
    limits: PackageVerificationLimits,
    i: nat,
    total: nat,
) -> Option<PackErrorView>
    decreases payloads.len() - i,
{
    if i >= payloads.len() {
        None
    } else {
        match preflight_step(bytes, payloads[i as int].path, limits, i, total) {
            Err(e) => Some(e),
            Ok(size) => preflight_from(bytes, payloads, limits, i + 1, total + size),
        }
    }
}

/// The contents of one payload under what is left of the budget.
pub open spec fn budgeted_entry(
    bytes: Seq<u8>,
    name: Seq<char>,
    limits: PackageVerificationLimits,
    consumed: nat,
) -> Result<Seq<u8>, PackErrorView> {
    let remaining = if consumed <= limits.max_total_bytes {
        (limits.max_total_bytes - consumed) as usize
    } else {
        0
    };
    let allowed = if limits.max_entry_bytes <= remaining {
        limits.max_entry_bytes
    } else {
        remaining
    };
    match archive::streamed_entry(bytes, name, allowed) {
        Ok(content) => Ok(content),
        Err(e) => Err(fault::required_entry_view(e, PackErrorView::BinaryNotFound(name))),
    }
}

/// The error for a payload whose digest differs from the manifest's.
pub open spec fn mismatch(payload: PayloadView) -> PackErrorView {
    match payload.role {
        PayloadRole::Binary => PackErrorView::BinaryHashMismatch { path: payload.path },
        PayloadRole::Resource => PackErrorView::ResourceHashMismatch { path: payload.path },
        PayloadRole::Proto => PackErrorView::ProtoHashMismatch { path: payload.path },
        PayloadRole::LockFile => PackErrorView::LockFileHashMismatch { path: payload.path },
    }
}

/// The first payload from position `i` on that cannot be read under the budget
/// or whose digest differs, where `consumed` bytes were read before it.
pub open spec fn digest_fault_from(
    bytes: Seq<u8>,
    payloads: Seq<PayloadView>,
    limits: PackageVerificationLimits,
    i: nat,
    consumed: nat,
) -> Option<PackErrorView>
    decreases payloads.len() - i,
{
    if i >= payloads.len() {
        None
    } else {
        match budgeted_entry(bytes, payloads[i as int].path, limits, consumed) {
            Err(e) => Some(e),
            Ok(content) => if archive::hex_text(archive::sha256(content))
                != payloads[i as int].hash {
                Some(mismatch(payloads[i as int]))
            } else {
                digest_fault_from(bytes, payloads, limits, i + 1, consumed + content.len())
            },
        }
    }
}

/// What is wrong with a package whose manifest is `m`: its integrity fields, the
/// declared payload sizes, or the payloads themselves, in this order.
pub open spec fn payload_fault(
    bytes: Seq<u8>,
    m: PackageManifest,
    limits: PackageVerificationLimits,
) -> Option<PackErrorView> {
    let payloads = manifest::signed_payloads(m);
    match manifest::integrity_fault(m) {
        Some(e) => Some(e),
        None => match preflight_from(bytes, payloads, limits, 0, 0) {
            Some(e) => Some(e),
            None => digest_fault_from(bytes, payloads, limits, 0, 0),
        },
    }
}

/// Declared-size accounting over payloads.
struct PayloadPreflight {
    limits: PackageVerificationLimits,
    entries: usize,
    total_bytes: usize,
}

impl PayloadPreflight {
    fn new(limits: PackageVerificationLimits) -> (r: Self)
        ensures
            r.limits == limits,
            r.entries == 0,
            r.total_bytes == 0,
    {
        PayloadPreflight { limits, entries: 0, total_bytes: 0 }
    }

    /// Count one payload by its declared size.
    fn check(&mut self, archive: &mut zip::ZipArchive<Cursor<Vec<u8>>>, name: &str) -> (r: Result<
        (),
        PackError,
    >)
        ensures
            archive::archive_bytes(*final(archive)) == archive::archive_bytes(*old(archive)),
            final(self).limits == old(self).limits,
            match preflight_step(
                archive::archive_bytes(*old(archive)),
                name@,
                old(self).limits,
                old(self).entries as nat,
                old(self).total_bytes as nat,
            ) {
                Ok(size) => r is Ok && final(self).entries == old(self).entries + 1
                    && final(self).total_bytes == old(self).total_bytes + size,
                Err(error) => r matches Err(e) && e@ == error,
            },
    {
        match self.entries.checked_add(1) {
            Some(entries) => {
                self.entries = entries;
            },
            None => return Err(
                PackError::InvalidPackage("signed payload entry count overflows usize".to_owned()),
            ),
        }
        if self.entries > self.limits.max_entries {
            let entries: String = decimal(self.entries as u64);
            let limit: String = decimal(self.limits.max_entries as u64);
            let head: String = cat3(
                "signed payload has ",
                entries.as_str(),
                " entries, exceeds limit ",
            );
            return Err(PackError::InvalidPackage(cat(head.as_str(), limit.as_str())));
        }
        let size: u64 = match entry_size(archive, name) {
            Ok(size) => size,
            Err(fault) => return Err(
                required_entry(
                    PackError::ZipError(fault),
                    PackError::BinaryNotFound(name.to_owned()),
                ),
            ),
        };
        if size > usize::MAX as u64 {
            let size: String = decimal(size);
            return Err(
                PackError::InvalidPackage(
                    cat5(
                        "ZIP entry `",
                        name,
                        "` declares ",
                        size.as_str(),
                        " bytes, cannot fit in usize",
                    ),
                ),
            );
        }
        let size: usize = size as usize;
        if size > self.limits.max_entry_bytes {
            return Err(
                PackError::InvalidPackage(
                    declared_message(name, size as u64, self.limits.max_entry_bytes as u64),
                ),
            );
        }
        match self.total_bytes.checked_add(size) {
            Some(total) => {
                self.total_bytes = total;
            },
            None => return Err(
                PackError::InvalidPackage("signed payload size overflows usize".to_owned()),
            ),
        }
        if self.total_bytes > self.limits.max_total_bytes {
            let total: String = decimal(self.total_bytes as u64);
            let limit: String = decimal(self.limits.max_total_bytes as u64);
            let head: String = cat5(
                "signed payload declares ",
                total.as_str(),
                " cumulative bytes at `",
                name,
                "`, exceeds limit ",
            );
            return Err(PackError::InvalidPackage(cat(head.as_str(), limit.as_str())));
        }
        Ok(())
    }
}

/// Decompressed-size accounting over payloads.
struct PayloadBudget {
    limits: PackageVerificationLimits,
    consumed: usize,
}

impl PayloadBudget {
    fn new(limits: PackageVerificationLimits) -> (r: Self)
        ensures
            r.limits == limits,
            r.consumed == 0,
    {
        PayloadBudget { limits, consumed: 0 }
    }

    /// Digest one payload under what is left of the budget.
    fn hash(&mut self, archive: &mut zip::ZipArchive<Cursor<Vec<u8>>>, name: &str) -> (r: Result<
        String,
        PackError,
    >)
        requires
            old(self).consumed <= old(self).limits.max_total_bytes,
        ensures
            archive::archive_bytes(*final(archive)) == archive::archive_bytes(*old(archive)),
            final(self).limits == old(self).limits,
            final(self).consumed <= final(self).limits.max_total_bytes,
            match budgeted_entry(
                archive::archive_bytes(*old(archive)),
                name@,
                old(self).limits,
                old(self).consumed as nat,
            ) {
                Ok(content) => r matches Ok(h) && h@ == archive::hex_text(archive::sha256(content))
                    && final(self).consumed == old(self).consumed + content.len(),
                Err(error) => r matches Err(e) && e@ == error,
            },
    {
        let remaining: usize = self.limits.max_total_bytes.saturating_sub(self.consumed);
        let allowed: usize = if self.limits.max_entry_bytes <= remaining {
            self.limits.max_entry_bytes
        } else {
            remaining
        };
        match sha256_zip_entry_bounded(archive, name, allowed) {
            Ok((hash, n)) => {
                self.consumed = self.consumed + n;
                Ok(hash)
            },
            Err(e) => Err(required_entry(e, PackError::BinaryNotFound(name.to_owned()))),
        }
    }
}

/// The error for a payload whose digest differs from the manifest's.
fn mismatch_error(payload: &Payload) -> (r: PackError)
    ensures
        r@ == mismatch(payload@),
{
    let path: String = payload.path.clone();
    match payload.role {
        PayloadRole::Binary => PackError::BinaryHashMismatch { path },
        PayloadRole::Resource => PackError::ResourceHashMismatch { path },
        PayloadRole::Proto => PackError::ProtoHashMismatch { path },
        PayloadRole::LockFile => PackError::LockFileHashMismatch { path },
    }
}

/// Reject excessive declared work before decompressing any payload.
fn preflight_payloads(
    archive: &mut zip::ZipArchive<Cursor<Vec<u8>>>,
    payloads: &Vec<Payload>,
    limits: PackageVerificationLimits,
) -> (r: Result<(), PackError>)
    ensures
        archive::archive_bytes(*final(archive)) == archive::archive_bytes(*old(archive)),
        match preflight_from(
            archive::archive_bytes(*old(archive)),
            manifest::payload_views(payloads@),
            limits,
            0,
            0,
        ) {
            None => r is Ok,
            Some(error) => r matches Err(e) && e@ == error,
        },
{
    let ghost bytes = archive::archive_bytes(*archive);
    let ghost all = manifest::payload_views(payloads@);
    let mut preflight = PayloadPreflight::new(limits);
    let mut i: usize = 0;
    while i < payloads.len()
        invariant
            i <= payloads@.len(),
            all == manifest::payload_views(payloads@),
            archive::archive_bytes(*archive) == bytes,
            bytes == archive::archive_bytes(*old(archive)),
            preflight.limits == limits,
            preflight.entries == i,
            preflight_from(bytes, all, limits, 0, 0) == preflight_from(
                bytes,
                all,
                limits,
                i as nat,
                preflight.total_bytes as nat,
            ),
        decreases payloads@.len() - i,
    {
        assert(all[i as int] == payloads@[i as int]@);
        match preflight.check(archive, payloads[i].path.as_str()) {
            Ok(_) => {},
            Err(e) => return Err(e),
        }
        i = i + 1;
    }
    Ok(())
}

/// Digest every payload and hold it against the manifest.
fn digest_payloads(
    archive: &mut zip::ZipArchive<Cursor<Vec<u8>>>,
    payloads: &Vec<Payload>,
    limits: PackageVerificationLimits,
) -> (r: Result<(), PackError>)
    ensures
        archive::archive_bytes(*final(archive)) == archive::archive_bytes(*old(archive)),
        match digest_fault_from(
            archive::archive_bytes(*old(archive)),
            manifest::payload_views(payloads@),
            limits,
            0,
            0,
        ) {
            None => r is Ok,
            Some(error) => r matches Err(e) && e@ == error,
        },
{
    let ghost bytes = archive::archive_bytes(*archive);
    let ghost all = manifest::payload_views(payloads@);
    let mut budget = PayloadBudget::new(limits);
    let mut i: usize = 0;
    while i < payloads.len()
        invariant
            i <= payloads@.len(),
            all == manifest::payload_views(payloads@),
            archive::archive_bytes(*archive) == bytes,
            bytes == archive::archive_bytes(*old(archive)),
            budget.limits == limits,
            budget.consumed <= limits.max_total_bytes,
            digest_fault_from(bytes, all, limits, 0, 0) == digest_fault_from(
                bytes,
                all,
                limits,
                i as nat,
                budget.consumed as nat,
            ),
        decreases payloads@.len() - i,
    {
        assert(all[i as int] == payloads@[i as int]@);
        let computed: String = match budget.hash(archive, payloads[i].path.as_str()) {
            Ok(hash) => hash,
            Err(e) => return Err(e),
        };
        if !same_text(computed.as_str(), payloads[i].hash.as_str()) {
            return Err(mismatch_error(&payloads[i]));
        }
        i = i + 1;
    }
    Ok(())
}

fn verify_payloads_in(
    archive: &mut zip::ZipArchive<Cursor<Vec<u8>>>,
    manifest: &PackageManifest,
    limits: PackageVerificationLimits,
) -> (r: Result<(), PackError>)
    ensures
        match payload_fault(archive::archive_bytes(*old(archive)), *manifest, limits) {
            None => r is Ok,
            Some(error) => r matches Err(e) && e@ == error,
        },
{
    match validate_manifest_integrity_fields(manifest) {
        Ok(_) => {},
        Err(e) => return Err(e),
    }
    let payloads: Vec<Payload> = manifest.payloads();
    match preflight_payloads(archive, &payloads, limits) {
        Ok(_) => {},
        Err(e) => return Err(e),
    }
    digest_payloads(archive, &payloads, limits)
}

/// Verify the payloads of a package against a manifest that was already
/// authenticated.
pub fn verify_payloads(
    actr_bytes: &[u8],
    manifest: &PackageManifest,
    limits: PackageVerificationLimits,
) -> (r: Result<(), PackError>)
    ensures
        match archive::zip_open_fault(actr_bytes@) {
            Some(fault) => r matches Err(e) && e@ == PackErrorView::ZipError(fault),
            None => match payload_fault(actr_bytes@, *manifest, limits) {
                None => r is Ok,
                Some(error) => r matches Err(e) && e@ == error,
            },
        },
{
    let mut archive = match open_archive(actr_bytes) {
        Ok(archive) => archive,
        Err(fault) => return Err(PackError::ZipError(fault)),
    };
    verify_payloads_in(&mut archive, manifest, limits)
}

/// What verification returns for a package whose signature and raw manifest are
/// authentic and whose manifest parsed to `parsed`.
pub open spec fn verified(
    bytes: Seq<u8>,
    sig: Seq<u8>,
    raw: Seq<u8>,
    parsed: Result<PackageManifest, PackError>,
    limits: PackageVerificationLimits,
    r: Result<VerifiedPackage, PackError>,
) -> bool {
    match parsed {
        Err(e) => r == Err::<VerifiedPackage, PackError>(e),
        Ok(m) => match payload_fault(bytes, m, limits) {
            Some(error) => r matches Err(e) && e@ == error,
            None => r matches Ok(p) && p.manifest == m && p.manifest_raw@ == raw && p.sig_raw@
                == sig,
        },
    }
}

/// What verifying a package returns, where `parse` turns manifest text into a
/// manifest: the error of the first step that fails, or the manifest and the
/// raw bytes.
pub open spec fn verification<F: Fn(&str) -> Result<PackageManifest, PackError>>(
    bytes: Seq<u8>,
    key: Seq<u8>,
    limits: PackageVerificationLimits,
    parse: F,
    r: Result<VerifiedPackage, PackError>,
) -> bool {
    match authenticated(bytes, key) {
        Err(error) => r matches Err(e) && e@ == error,
        Ok((sig, raw)) => exists|text: &str, parsed: Result<PackageManifest, PackError>|
            text@ == decode_utf8(raw) && #[trigger] call_ensures(parse, (text,), parsed)
                && verified(bytes, sig, raw, parsed, limits, r),
    }
}

/// Verify a package with explicit decompression and entry-count limits.
///
/// `pubkey` is the 32-byte Ed25519 public key; `parse` turns the manifest's text
/// into a manifest. `manifest.sig` is always capped at 64 bytes and
/// `manifest.toml` at 1 MiB. The remaining signed payloads are metadata-checked
/// against `limits` before any of them is decompressed, then digested under the
/// same cumulative budget.
pub fn verify_with_limits<F: Fn(&str) -> Result<PackageManifest, PackError>>(
    actr_bytes: &[u8],
    pubkey: &[u8; 32],
    limits: PackageVerificationLimits,
    parse: F,
) -> (r: Result<VerifiedPackage, PackError>)
    requires
        forall|text: &str| call_requires(parse, (text,)),
    ensures
        verification(actr_bytes@, pubkey@, limits, parse, r),
{
    let mut archive = match open_archive(actr_bytes) {
        Ok(archive) => archive,
        Err(fault) => return Err(PackError::ZipError(fault)),
    };
    let sig_raw: Vec<u8> = match read_signature_entry(&mut archive) {
        Ok(sig) => sig,
        Err(e) => return Err(e),
    };
    let signature: [u8; 64] = signature_array(&sig_raw);
    let manifest_raw: Vec<u8> = match read_manifest_entry(&mut archive) {
        Ok(raw) => raw,
        Err(e) => return Err(e),
    };
    match check_signature(pubkey, manifest_raw.as_slice(), &signature) {
        None => {},
        Some(t) => return Err(
            PackError::SignatureVerificationFailed(
                cat("Ed25519 verification failed: ", t.as_str()),
            ),
        ),
    }
    let text: &str = match manifest_str(manifest_raw.as_slice()) {
        Ok(text) => text,
        Err(e) => return Err(e),
    };
    let parsed: Result<PackageManifest, PackError> = parse(text);
    let ghost outcome = parsed;
    assert(call_ensures(parse, (text,), outcome));
    let manifest: PackageManifest = match parsed {
        Ok(m) => m,
        Err(e) => return Err(e),
    };
    match verify_payloads_in(&mut archive, &manifest, limits) {
        Ok(_) => {},
        Err(e) => return Err(e),
    }
    Ok(VerifiedPackage { manifest, manifest_raw, sig_raw })
}

/// Verify a package with a safe default payload limit: each binary, resource,
/// proto, and lock-file entry, and all of them together, are limited to
/// [`DEFAULT_MAX_VERIFIED_ENTRY_BYTES`] of decompressed data.
pub fn verify<F: Fn(&str) -> Result<PackageManifest, PackError>>(
    actr_bytes: &[u8],
    pubkey: &[u8; 32],
    parse: F,
) -> (r: Result<VerifiedPackage, PackError>)
    requires
        forall|text: &str| call_requires(parse, (text,)),
    ensures
        verification(
            actr_bytes@,
            pubkey@,
            (PackageVerificationLimits {
                max_entry_bytes: DEFAULT_MAX_VERIFIED_ENTRY_BYTES,
                max_total_bytes: DEFAULT_MAX_VERIFIED_ENTRY_BYTES,
                max_entries: DEFAULT_MAX_VERIFIED_ENTRIES,
            }),
            parse,
            r,
        ),
{
    verify_with_limits(actr_bytes, pubkey, PackageVerificationLimits::default(), parse)
}

/// Verify a package using one configured component/payload budget:
/// `max_component_bytes` caps both each individual payload and their cumulative
/// decompressed size. At most [`DEFAULT_MAX_VERIFIED_ENTRIES`] payload entries
/// are accepted.
pub fn verify_bounded<F: Fn(&str) -> Result<PackageManifest, PackError>>(
    actr_bytes: &[u8],
    pubkey: &[u8; 32],
    max_component_bytes: usize,
    parse: F,
) -> (r: Result<VerifiedPackage, PackError>)
    requires
        forall|text: &str| call_requires(parse, (text,)),
    ensures
        verification(
            actr_bytes@,
            pubkey@,
            (PackageVerificationLimits {
                max_entry_bytes: max_component_bytes,
                max_total_bytes: max_component_bytes,
                max_entries: DEFAULT_MAX_VERIFIED_ENTRIES,
            }),
            parse,
            r,
        ),
{
    verify_with_limits(
        actr_bytes,
        pubkey,
        PackageVerificationLimits::from_max_component_bytes(max_component_bytes),
        parse,
    )
}

// ── laws ─────────────────────────────────────────────────────────────────────

/// The payload contents from position `i` on, as verification reads them.
pub open spec fn contents_from(
    bytes: Seq<u8>,
    payloads: Seq<PayloadView>,
    limits: PackageVerificationLimits,
    i: nat,
    consumed: nat,
) -> Seq<Seq<u8>>
    decreases payloads.len() - i,
{
    if i >= payloads.len() {
        Seq::empty()
    } else {
        match budgeted_entry(bytes, payloads[i as int].path, limits, consumed) {
            Err(_) => Seq::empty(),
            Ok(content) => seq![content] + contents_from(
                bytes,
                payloads,
                limits,
                i + 1,
                consumed + content.len(),
            ),
        }
    }
}

/// The total size of some contents.
pub open spec fn total_size(contents: Seq<Seq<u8>>) -> nat
    decreases contents.len(),
{
    if contents.len() == 0 {
        0
    } else {
        contents[0].len() + total_size(contents.skip(1))
    }
}

proof fn lemma_contents(
    bytes: Seq<u8>,
    payloads: Seq<PayloadView>,
    limits: PackageVerificationLimits,
    i: nat,
    consumed: nat,
)
    requires
        i <= payloads.len(),
        consumed <= limits.max_total_bytes,
        digest_fault_from(bytes, payloads, limits, i, consumed) is None,
    ensures
        contents_from(bytes, payloads, limits, i, consumed).len() == payloads.len() - i,
        forall|j: int|
            0 <= j < payloads.len() - i ==> archive::hex_text(
                archive::sha256(#[trigger] contents_from(bytes, payloads, limits, i, consumed)[j]),
            ) == payloads[i + j].hash,
        forall|j: int|
            0 <= j < payloads.len() - i ==> (#[trigger] contents_from(
                bytes,
                payloads,
                limits,
                i,
                consumed,
            )[j]).len() <= limits.max_entry_bytes,
        consumed + total_size(contents_from(bytes, payloads, limits, i, consumed))
            <= limits.max_total_bytes,
    decreases payloads.len() - i,
{
    if i < payloads.len() {
        let content = budgeted_entry(bytes, payloads[i as int].path, limits, consumed)->Ok_0;
        lemma_contents(bytes, payloads, limits, i + 1, consumed + content.len());
        let rest = contents_from(bytes, payloads, limits, i + 1, consumed + content.len());
        let all = contents_from(bytes, payloads, limits, i, consumed);
        assert(all.skip(1) =~= rest);
        assert forall|j: int| 0 <= j < payloads.len() - i implies archive::hex_text(
            archive::sha256(#[trigger] all[j]),
        ) == payloads[i + j].hash && all[j].len() <= limits.max_entry_bytes by {
            if j > 0 {
                assert(all[j] == rest[j - 1]);
                assert(payloads[i + j] == payloads[i + 1 + (j - 1)]);
            }
        }
    }
}

proof fn lemma_preflight_entries(
    bytes: Seq<u8>,
    payloads: Seq<PayloadView>,
    limits: PackageVerificationLimits,
    i: nat,
    total: nat,
)
    requires
        i <= payloads.len(),
        i <= limits.max_entries,
        preflight_from(bytes, payloads, limits, i, total) is None,
    ensures
        payloads.len() <= limits.max_entries,
    decreases payloads.len() - i,
{
    if i < payloads.len() {
        let size = preflight_step(bytes, payloads[i as int].path, limits, i, total)->Ok_0;
        lemma_preflight_entries(bytes, payloads, limits, i + 1, total + size);
    }
}

proof fn lemma_hash_fields(payloads: Seq<PayloadView>, i: nat)
    requires
        manifest::hash_fault_from(payloads, i) is None,
    ensures
        forall|j: int|
            i <= j < payloads.len() ==> manifest::is_sha256_text(#[trigger] payloads[j].hash),
    decreases payloads.len() - i,
{
    if i < payloads.len() {
        lemma_hash_fields(payloads, i + 1);
    }
}

/// Where a package's payloads are accepted, every payload that the manifest
/// signs was read within the limits and has exactly the signed digest, and
/// their number and total size are within the limits.
pub proof fn accepted_payloads_match_the_manifest(
    bytes: Seq<u8>,
    m: PackageManifest,
    limits: PackageVerificationLimits,
)
    requires
        payload_fault(bytes, m, limits) is None,
    ensures
        m.signature_algorithm@ == "ed25519"@,
        manifest::signed_payloads(m).len() <= limits.max_entries,
        contents_from(bytes, manifest::signed_payloads(m), limits, 0, 0).len()
            == manifest::signed_payloads(m).len(),
        forall|j: int|
            0 <= j < manifest::signed_payloads(m).len() ==> manifest::is_sha256_text(
                #[trigger] manifest::signed_payloads(m)[j].hash,
            ) && manifest::signed_payloads(m)[j].hash == archive::hex_text(
                archive::sha256(
                    contents_from(bytes, manifest::signed_payloads(m), limits, 0, 0)[j],
                ),
            ) && contents_from(bytes, manifest::signed_payloads(m), limits, 0, 0)[j].len()
                <= limits.max_entry_bytes,
        total_size(contents_from(bytes, manifest::signed_payloads(m), limits, 0, 0))
            <= limits.max_total_bytes,
{
    let payloads = manifest::signed_payloads(m);
    lemma_hash_fields(payloads, 0);
    lemma_preflight_entries(bytes, payloads, limits, 0, 0);
    lemma_contents(bytes, payloads, limits, 0, 0);
    assert forall|j: int| 0 <= j < payloads.len() implies manifest::is_sha256_text(
        #[trigger] payloads[j].hash,
    ) && payloads[j].hash == archive::hex_text(
        archive::sha256(contents_from(bytes, payloads, limits, 0, 0)[j]),
    ) && contents_from(bytes, payloads, limits, 0, 0)[j].len() <= limits.max_entry_bytes by {
        let c = contents_from(bytes, payloads, limits, 0, 0)[j];
        assert(payloads[0 + j].hash == archive::hex_text(archive::sha256(c)));
    }
}

/// A verified package is authentic: its signature is 64 bytes, the key accepts
/// it over exactly the manifest bytes that are returned, and the payloads pass
/// the limits and the manifest's digests.
pub proof fn verified_package_is_authentic<F: Fn(&str) -> Result<PackageManifest, PackError>>(
    bytes: Seq<u8>,
    key: Seq<u8>,
    limits: PackageVerificationLimits,
    parse: F,
    package: VerifiedPackage,
)
    requires
        verification(bytes, key, limits, parse, Ok(package)),
    ensures
        package.sig_raw@.len() == 64,
        ed25519_key_fault(key) is None,
        ed25519_verdict(key, package.manifest_raw@, package.sig_raw@) is Ok,
        package_signature(bytes) == Ok::<Seq<u8>, PackErrorView>(package.sig_raw@),
        package_manifest_bytes(bytes) == Ok::<Seq<u8>, PackErrorView>(package.manifest_raw@),
        payload_fault(bytes, package.manifest, limits) is None,
{
}

/// A package whose signature the key does not accept is never verified.
pub proof fn rejected_signature_is_never_verified<
    F: Fn(&str) -> Result<PackageManifest, PackError>,
>(
    bytes: Seq<u8>,
    key: Seq<u8>,
    limits: PackageVerificationLimits,
    parse: F,
    r: Result<VerifiedPackage, PackError>,
)
    requires
        verification(bytes, key, limits, parse, r),
        package_signature(bytes) is Ok,
        package_manifest_bytes(bytes) is Ok,
        signature_fault(key, package_manifest_bytes(bytes)->Ok_0, package_signature(bytes)->Ok_0)
            is Some,
    ensures
        r is Err,
{
}

/// Limits that are nowhere below others.
pub open spec fn at_least(l: PackageVerificationLimits, m: PackageVerificationLimits) -> bool {
    &&& l.max_entry_bytes >= m.max_entry_bytes
    &&& l.max_total_bytes >= m.max_total_bytes
    &&& l.max_entries >= m.max_entries
}

proof fn lemma_preflight_raised(
    bytes: Seq<u8>,
    payloads: Seq<PayloadView>,
    limits: PackageVerificationLimits,
    raised: PackageVerificationLimits,
    i: nat,
    total: nat,
)
    requires
        at_least(raised, limits),
        preflight_from(bytes, payloads, limits, i, total) is None,
    ensures
        preflight_from(bytes, payloads, raised, i, total) is None,
    decreases payloads.len() - i,
{
    if i < payloads.len() {
        let size = preflight_step(bytes, payloads[i as int].path, limits, i, total)->Ok_0;
        lemma_preflight_raised(bytes, payloads, limits, raised, i + 1, total + size);
    }
}

proof fn lemma_budgeted_raised(
    bytes: Seq<u8>,
    name: Seq<char>,
    limits: PackageVerificationLimits,
    raised: PackageVerificationLimits,
    consumed: nat,
)
    requires
        at_least(raised, limits),
        budgeted_entry(bytes, name, limits, consumed) is Ok,
    ensures
        budgeted_entry(bytes, name, raised, consumed) == budgeted_entry(
            bytes,
            name,
            limits,
            consumed,
        ),
{
}

proof fn lemma_digests_raised(
    bytes: Seq<u8>,
    payloads: Seq<PayloadView>,
    limits: PackageVerificationLimits,
    raised: PackageVerificationLimits,
    i: nat,
    consumed: nat,
)
    requires
        at_least(raised, limits),
        digest_fault_from(bytes, payloads, limits, i, consumed) is None,
    ensures
        digest_fault_from(bytes, payloads, raised, i, consumed) is None,
        contents_from(bytes, payloads, raised, i, consumed) == contents_from(
            bytes,
            payloads,
            limits,
            i,
            consumed,
        ),
    decreases payloads.len() - i,
{
    if i < payloads.len() {
        let name = payloads[i as int].path;
        let content = budgeted_entry(bytes, name, limits, consumed)->Ok_0;
        lemma_budgeted_raised(bytes, name, limits, raised, consumed);
        lemma_digests_raised(bytes, payloads, limits, raised, i + 1, consumed + content.len());
    }
}

/// Raising the limits never rejects a package that passed, nor changes what is
/// returned for it.
pub proof fn raised_limits_keep_verified_packages<
    F: Fn(&str) -> Result<PackageManifest, PackError>,
>(
    bytes: Seq<u8>,
    key: Seq<u8>,
    limits: PackageVerificationLimits,
    raised: PackageVerificationLimits,
    parse: F,
    package: VerifiedPackage,
)
    requires
        verification(bytes, key, limits, parse, Ok(package)),
        at_least(raised, limits),
    ensures
        verification(bytes, key, raised, parse, Ok(package)),
        payload_fault(bytes, package.manifest, raised) is None,
{
    let payloads = manifest::signed_payloads(package.manifest);
    lemma_preflight_raised(bytes, payloads, limits, raised, 0, 0);
    lemma_digests_raised(bytes, payloads, limits, raised, 0, 0);
    let (sig, raw) = authenticated(bytes, key)->Ok_0;
    let (text, parsed) = choose|text: &str, parsed: Result<PackageManifest, PackError>|
        text@ == decode_utf8(raw) && #[trigger] call_ensures(parse, (text,), parsed) && verified(
            bytes,
            sig,
            raw,
            parsed,
            limits,
            Ok(package),
        );
    assert(verified(bytes, sig, raw, parsed, raised, Ok(package)));
}

proof fn lemma_contents_are_entries(
    bytes: Seq<u8>,
    payloads: Seq<PayloadView>,
    limits: PackageVerificationLimits,
    i: nat,
    consumed: nat,
    j: int,
)
    requires
        i <= j < payloads.len(),
        digest_fault_from(bytes, payloads, limits, i, consumed) is None,
    ensures
        archive::streamed_entry(bytes, payloads[j].path, limits.max_entry_bytes) == Ok::<
            Seq<u8>,
            PackErrorView,
        >(contents_from(bytes, payloads, limits, i, consumed)[j - i]),
    decreases payloads.len() - i,
{
    let content = budgeted_entry(bytes, payloads[i as int].path, limits, consumed)->Ok_0;
    let all = contents_from(bytes, payloads, limits, i, consumed);
    if j > i {
        lemma_contents_are_entries(bytes, payloads, limits, i + 1, consumed + content.len(), j);
        let rest = contents_from(bytes, payloads, limits, i + 1, consumed + content.len());
        lemma_contents_len(bytes, payloads, limits, i + 1, consumed + content.len());
        assert(all[j - i] == rest[j - i - 1]);
    }
}

proof fn lemma_contents_len(
    bytes: Seq<u8>,
    payloads: Seq<PayloadView>,
    limits: PackageVerificationLimits,
    i: nat,
    consumed: nat,
)
    requires
        i <= payloads.len(),
        digest_fault_from(bytes, payloads, limits, i, consumed) is None,
    ensures
        contents_from(bytes, payloads, limits, i, consumed).len() == payloads.len() - i,
    decreases payloads.len() - i,
{
    if i < payloads.len() {
        let content = budgeted_entry(bytes, payloads[i as int].path, limits, consumed)->Ok_0;
        lemma_contents_len(bytes, payloads, limits, i + 1, consumed + content.len());
    }
}

/// What is loaded of a verified package is what was verified: under any limit, a
/// signed payload that can be read at all has the contents that were digested,
/// and so the signed digest. A limit no smaller than the one of the verification
/// always reads it.
pub proof fn loaded_payloads_are_the_verified_ones(
    bytes: Seq<u8>,
    m: PackageManifest,
    limits: PackageVerificationLimits,
    j: int,
    max_bytes: usize,
)
    requires
        payload_fault(bytes, m, limits) is None,
        0 <= j < manifest::signed_payloads(m).len(),
    ensures
        archive::bounded_entry(bytes, manifest::signed_payloads(m)[j].path, max_bytes) matches Ok(
            content,
        ) ==> content == contents_from(bytes, manifest::signed_payloads(m), limits, 0, 0)[j]
            && archive::hex_text(archive::sha256(content)) == manifest::signed_payloads(m)[j].hash,
        max_bytes >= limits.max_entry_bytes ==> archive::bounded_entry(
            bytes,
            manifest::signed_payloads(m)[j].path,
            max_bytes,
        ) is Ok,
{
    let payloads = manifest::signed_payloads(m);
    accepted_payloads_match_the_manifest(bytes, m, limits);
    lemma_contents_are_entries(bytes, payloads, limits, 0, 0, j);
    assert(manifest::is_sha256_text(payloads[j].hash));
}

/// Whether an archive holds, at a path, contents of at most `max_bytes` bytes whose SHA-256
/// digest is spelled by `hash`.
pub open spec fn vouched(
    bytes: Seq<u8>,
    path: Seq<char>,
    hash: Seq<char>,
    max_bytes: usize,
) -> bool {
    archive::zip_entry_content(bytes, path) matches Some(content) && content.len() <= max_bytes
        && archive::hex_text(archive::sha256(content)) == hash
}

proof fn lemma_payload_vouched(
    bytes: Seq<u8>,
    m: PackageManifest,
    limits: PackageVerificationLimits,
    k: int,
)
    requires
        payload_fault(bytes, m, limits) is None,
        0 <= k < manifest::signed_payloads(m).len(),
    ensures
        vouched(
            bytes,
            manifest::signed_payloads(m)[k].path,
            manifest::signed_payloads(m)[k].hash,
            limits.max_entry_bytes,
        ),
{
    let payloads = manifest::signed_payloads(m);
    accepted_payloads_match_the_manifest(bytes, m, limits);
    lemma_contents_are_entries(bytes, payloads, limits, 0, 0, k);
    assert(manifest::is_sha256_text(payloads[k].hash));
}

/// An accepted manifest vouches for every file that it names: the binary, each resource,
/// each proto file and the lock file are in the archive, within the limit, with exactly
/// the digest that their own entry states; and there are no more of them than the limit
/// allows.
pub proof fn accepted_manifests_vouch_for_every_file(
    bytes: Seq<u8>,
    m: PackageManifest,
    limits: PackageVerificationLimits,
)
    requires
        payload_fault(bytes, m, limits) is None,
    ensures
        vouched(bytes, m.binary.path@, m.binary.hash@, limits.max_entry_bytes),
        forall|i: int|
            0 <= i < m.resources@.len() ==> vouched(
                bytes,
                (#[trigger] m.resources@[i]).path@,
                m.resources@[i].hash@,
                limits.max_entry_bytes,
            ),
        forall|j: int|
            0 <= j < m.proto_files@.len() ==> vouched(
                bytes,
                (#[trigger] m.proto_files@[j]).path@,
                m.proto_files@[j].hash@,
                limits.max_entry_bytes,
            ),
        m.lock_file matches Some(lock) ==> vouched(
            bytes,
            lock.path@,
            lock.hash@,
            limits.max_entry_bytes,
        ),
        1 + m.resources@.len() + m.proto_files@.len() + (if m.lock_file is Some {
            1int
        } else {
            0
        }) <= limits.max_entries,
{
    let all = manifest::signed_payloads(m);
    let resources = m.resources@.len();
    manifest::every_named_file_is_signed(m, 0, 0);
    accepted_payloads_match_the_manifest(bytes, m, limits);
    lemma_payload_vouched(bytes, m, limits, 0);
    assert forall|i: int| 0 <= i < resources implies vouched(
        bytes,
        (#[trigger] m.resources@[i]).path@,
        m.resources@[i].hash@,
        limits.max_entry_bytes,
    ) by {
        manifest::every_named_file_is_signed(m, i, 0);
        lemma_payload_vouched(bytes, m, limits, 1 + i);
    }
    assert forall|j: int| 0 <= j < m.proto_files@.len() implies vouched(
        bytes,
        (#[trigger] m.proto_files@[j]).path@,
        m.proto_files@[j].hash@,
        limits.max_entry_bytes,
    ) by {
        manifest::every_named_file_is_signed(m, 0, j);
        lemma_payload_vouched(bytes, m, limits, 1 + resources + j);
    }
    if m.lock_file is Some {
        lemma_payload_vouched(bytes, m, limits, all.len() - 1);
    }
}

/// The declared sizes of the payloads from position `i` on, together.
pub open spec fn declared_from(bytes: Seq<u8>, payloads: Seq<PayloadView>, i: nat) -> nat
    decreases payloads.len() - i,
{
    if i >= payloads.len() {
        0
    } else {
        (match archive::zip_entry_size(bytes, payloads[i as int].path) {
            Ok(size) => size as nat,
            Err(_) => 0,
        }) + declared_from(bytes, payloads, i + 1)
    }
}

/// Whether a payload's entry declares the size that it has.
pub open spec fn honest_entry(bytes: Seq<u8>, path: Seq<char>) -> bool {
    archive::zip_entry_content(bytes, path) matches Some(content)
        && archive::zip_entry_size(bytes, path) matches Ok(size) && size == content.len()
}

proof fn lemma_honest_preflight(
    bytes: Seq<u8>,
    payloads: Seq<PayloadView>,
    limits: PackageVerificationLimits,
    i: nat,
    total: nat,
)
    requires
        i <= payloads.len() <= limits.max_entries,
        forall|k: int|
            0 <= k < payloads.len() ==> honest_entry(bytes, (#[trigger] payloads[k]).path)
                && vouched(bytes, payloads[k].path, payloads[k].hash, limits.max_entry_bytes),
        total + declared_from(bytes, payloads, i) <= limits.max_total_bytes,
    ensures
        preflight_from(bytes, payloads, limits, i, total) is None,
    decreases payloads.len() - i,
{
    if i < payloads.len() {
        assert(honest_entry(bytes, payloads[i as int].path));
        let size = archive::zip_entry_size(bytes, payloads[i as int].path)->Ok_0;
        assert(preflight_step(bytes, payloads[i as int].path, limits, i, total) == Ok::<
            nat,
            PackErrorView,
        >(size as nat));
        lemma_honest_preflight(bytes, payloads, limits, i + 1, total + size as nat);
    }
}

proof fn lemma_honest_digests(
    bytes: Seq<u8>,
    payloads: Seq<PayloadView>,
    limits: PackageVerificationLimits,
    i: nat,
    consumed: nat,
)
    requires
        i <= payloads.len(),
        forall|k: int|
            0 <= k < payloads.len() ==> honest_entry(bytes, (#[trigger] payloads[k]).path)
                && vouched(bytes, payloads[k].path, payloads[k].hash, limits.max_entry_bytes)
                && archive::zip_entry_content(bytes, payloads[k].path)->Some_0.len() < u64::MAX,
        consumed + declared_from(bytes, payloads, i) <= limits.max_total_bytes,
    ensures
        digest_fault_from(bytes, payloads, limits, i, consumed) is None,
    decreases payloads.len() - i,
{
    if i < payloads.len() {
        let p = payloads[i as int];
        assert(honest_entry(bytes, p.path));
        let content = archive::zip_entry_content(bytes, p.path)->Some_0;
        let remaining = (limits.max_total_bytes - consumed) as usize;
        let allowed = if limits.max_entry_bytes <= remaining {
            limits.max_entry_bytes
        } else {
            remaining
        };
        archive::entries_within_the_limit_are_given_whole(bytes, p.path, allowed, content);
        assert(budgeted_entry(bytes, p.path, limits, consumed) == Ok::<Seq<u8>, PackErrorView>(
            content,
        ));
        lemma_honest_digests(bytes, payloads, limits, i + 1, consumed + content.len());
    }
}

/// A sound package is never refused: where the manifest's integrity fields are sound, every
/// file that it signs is in the archive with the stated digest and declares its own size,
/// and number, sizes and total are within the limits, the payloads are accepted. (No
/// entry is as long as the largest number that can be counted.)
pub proof fn sound_packages_are_accepted(
    bytes: Seq<u8>,
    m: PackageManifest,
    limits: PackageVerificationLimits,
)
    requires
        manifest::integrity_fault(m) is None,
        manifest::signed_payloads(m).len() <= limits.max_entries,
        forall|k: int|
            0 <= k < manifest::signed_payloads(m).len() ==> {
                let p = #[trigger] manifest::signed_payloads(m)[k];
                &&& honest_entry(bytes, p.path)
                &&& vouched(bytes, p.path, p.hash, limits.max_entry_bytes)
                &&& archive::zip_entry_content(bytes, p.path)->Some_0.len() < u64::MAX
            },
        declared_from(bytes, manifest::signed_payloads(m), 0) <= limits.max_total_bytes,
    ensures
        payload_fault(bytes, m, limits) is None,
{
    let payloads = manifest::signed_payloads(m);
    assert forall|k: int| 0 <= k < payloads.len() implies honest_entry(
        bytes,
        (#[trigger] payloads[k]).path,
    ) && vouched(bytes, payloads[k].path, payloads[k].hash, limits.max_entry_bytes)
        && archive::zip_entry_content(bytes, payloads[k].path)->Some_0.len() < u64::MAX by {}
    lemma_honest_preflight(bytes, payloads, limits, 0, 0);
    lemma_honest_digests(bytes, payloads, limits, 0, 0);
}

/// Nothing is digested before the declared sizes were found to be within the limits: where
/// a signed file is absent or declares more than an entry may hold, a package is refused,
/// and accepted payloads declare no more than the limits together.
pub proof fn declared_sizes_are_within_the_limits(
    bytes: Seq<u8>,
    m: PackageManifest,
    limits: PackageVerificationLimits,
    k: int,
)
    requires
        payload_fault(bytes, m, limits) is None,
        0 <= k < manifest::signed_payloads(m).len(),
    ensures
        archive::zip_entry_size(bytes, manifest::signed_payloads(m)[k].path) matches Ok(size)
            && size <= limits.max_entry_bytes,
        declared_from(bytes, manifest::signed_payloads(m), 0) <= limits.max_total_bytes,
{
    lemma_declared(bytes, manifest::signed_payloads(m), limits, 0, 0, k);
}

proof fn lemma_declared(
    bytes: Seq<u8>,
    payloads: Seq<PayloadView>,
    limits: PackageVerificationLimits,
    i: nat,
    total: nat,
    k: int,
)
    requires
        i <= payloads.len(),
        preflight_from(bytes, payloads, limits, i, total) is None,
        total <= limits.max_total_bytes,
    ensures
        i <= k < payloads.len() ==> (archive::zip_entry_size(bytes, payloads[k].path) matches Ok(
            size,
        ) && size <= limits.max_entry_bytes),
        total + declared_from(bytes, payloads, i) <= limits.max_total_bytes,
    decreases payloads.len() - i,
{
    if i < payloads.len() {
        let size = preflight_step(bytes, payloads[i as int].path, limits, i, total)->Ok_0;
        lemma_declared(bytes, payloads, limits, i + 1, total + size, k);
    }
}

/// A digest that differs is reported against the file that it belongs to, by its role and
/// its path.
pub proof fn tampered_files_are_named(payload: PayloadView)
    ensures
        mismatch(payload) == (PackErrorView::BinaryHashMismatch { path: payload.path })
            <==> payload.role == PayloadRole::Binary,
        mismatch(payload) == (PackErrorView::ResourceHashMismatch { path: payload.path })
            <==> payload.role == PayloadRole::Resource,
        mismatch(payload) == (PackErrorView::ProtoHashMismatch { path: payload.path })
            <==> payload.role == PayloadRole::Proto,
        mismatch(payload) == (PackErrorView::LockFileHashMismatch { path: payload.path })
            <==> payload.role == PayloadRole::LockFile,
{
}

/// A binary that was tampered with is refused as such, whatever else the package holds.
pub proof fn tampered_binaries_are_refused(
    bytes: Seq<u8>,
    m: PackageManifest,
    limits: PackageVerificationLimits,
    content: Seq<u8>,
)
    requires
        manifest::integrity_fault(m) is None,
        preflight_from(bytes, manifest::signed_payloads(m), limits, 0, 0) is None,
        archive::zip_entry_content(bytes, m.binary.path@) == Some(content),
        content.len() <= limits.max_entry_bytes,
        content.len() <= limits.max_total_bytes,
        content.len() < u64::MAX,
        archive::hex_text(archive::sha256(content)) != m.binary.hash@,
    ensures
        payload_fault(bytes, m, limits) == Some(
            PackErrorView::BinaryHashMismatch { path: m.binary.path@ },
        ),
{
    let payloads = manifest::signed_payloads(m);
    manifest::every_named_file_is_signed(m, 0, 0);
    lemma_declared(bytes, payloads, limits, 0, 0, 0);
    let size = archive::zip_entry_size(bytes, m.binary.path@)->Ok_0;
    assert(declared_from(bytes, payloads, 0) >= size);
    let allowed = if limits.max_entry_bytes <= limits.max_total_bytes {
        limits.max_entry_bytes
    } else {
        limits.max_total_bytes
    };
    archive::entries_within_the_limit_are_given_whole(bytes, m.binary.path@, allowed, content);
    assert(budgeted_entry(bytes, m.binary.path@, limits, 0) == Ok::<Seq<u8>, PackErrorView>(
        content,
    ));
}

/// A package is authentic exactly when it opens, `manifest.sig` holds 64 bytes,
/// `manifest.toml` holds at most a mebibyte of valid UTF-8, the key is a key, and strict
/// verification takes that signature over those very manifest bytes.
pub proof fn authentic_packages_are_those_signed(
    bytes: Seq<u8>,
    key: Seq<u8>,
    sig: Seq<u8>,
    raw: Seq<u8>,
)
    ensures
        authenticated(bytes, key) == Ok::<(Seq<u8>, Seq<u8>), PackErrorView>((sig, raw)) <==> {
            &&& archive::zip_open_fault(bytes) is None
            &&& archive::zip_entry_content(bytes, "manifest.sig"@) == Some(sig)
            &&& archive::zip_entry_size(bytes, "manifest.sig"@) matches Ok(size) && size <= 64
            &&& sig.len() == 64
            &&& archive::zip_entry_content(bytes, "manifest.toml"@) == Some(raw)
            &&& archive::zip_entry_size(bytes, "manifest.toml"@) matches Ok(size) && size
                <= 1048576
            &&& raw.len() <= 1048576
            &&& ed25519_key_fault(key) is None
            &&& ed25519_verdict(key, raw, sig) is Ok
            &&& valid_utf8(raw)
        },
{
    archive::entries_within_the_limit_are_given_whole(
        bytes,
        "manifest.sig"@,
        MAX_SIGNATURE_BYTES,
        sig,
    );
    archive::entries_within_the_limit_are_given_whole(
        bytes,
        "manifest.toml"@,
        MAX_MANIFEST_BYTES,
        raw,
    );
    if authenticated(bytes, key) == Ok::<(Seq<u8>, Seq<u8>), PackErrorView>((sig, raw)) {
        assert(package_signature(bytes) == Ok::<Seq<u8>, PackErrorView>(sig));
        assert(package_manifest_bytes(bytes) == Ok::<Seq<u8>, PackErrorView>(raw));
    }
}

/// An authentic package whose manifest parses to `m` is verified exactly when its payloads
/// are accepted, and what is returned is that manifest with the very bytes that were
/// signed and their signature.
pub proof fn verification_returns_what_was_signed(
    bytes: Seq<u8>,
    sig: Seq<u8>,
    raw: Seq<u8>,
    m: PackageManifest,
    limits: PackageVerificationLimits,
    r: Result<VerifiedPackage, PackError>,
)
    requires
        verified(bytes, sig, raw, Ok(m), limits, r),
    ensures
        r is Ok <==> payload_fault(bytes, m, limits) is None,
        r matches Ok(p) ==> p.manifest == m && p.manifest_raw@ == raw && p.sig_raw@ == sig,
        r matches Err(e) ==> payload_fault(bytes, m, limits) == Some(e@),
{
}

/// A package without a signature, without a manifest or without a signed file is told
/// which one it lacks.
pub proof fn absent_entries_are_named(
    bytes: Seq<u8>,
    path: Seq<char>,
    limits: PackageVerificationLimits,
)
    requires
        limits.max_entries > 0,
    ensures
        ({
            let absent = Err::<u64, fault::ZipFaultView>(fault::ZipFaultView::FileNotFound);
            &&& archive::zip_entry_size(bytes, "manifest.sig"@) == absent ==> package_signature(
                bytes,
            ) == Err::<Seq<u8>, PackErrorView>(PackErrorView::SignatureNotFound)
            &&& archive::zip_entry_size(bytes, "manifest.toml"@) == absent
                ==> package_manifest_bytes(bytes) == Err::<Seq<u8>, PackErrorView>(
                PackErrorView::ManifestNotFound,
            )
            &&& archive::zip_entry_size(bytes, path) == absent ==> preflight_step(
                bytes,
                path,
                limits,
                0,
                0,
            ) == Err::<nat, PackErrorView>(PackErrorView::BinaryNotFound(path))
        }),
{
}

} // verus!
