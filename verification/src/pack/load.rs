//! Reading parts of a package without verifying it.
//!
//! Every reader picks paths from the manifest, never from raw ZIP names, so an
//! unsigned entry appended to an otherwise valid package is ignored.
use crate::pack::archive;
use crate::pack::archive::{open_archive, read_zip_entry_bounded};
use crate::pack::fault;
use crate::pack::fault::{required_entry, PackError, PackErrorView, ZipFault, ZipFaultView};
use crate::pack::manifest::{PackageManifest, ProtoFileEntry, ResourceEntry};
use crate::pack::verify;
use crate::pack::verify::{
    manifest_str, read_manifest_entry, read_signature_entry, DEFAULT_MAX_VERIFIED_ENTRIES,
    DEFAULT_MAX_VERIFIED_ENTRY_BYTES,
};
use crate::text;
use crate::text::{cat, cat3, decimal, from_utf8, has_prefix, has_suffix};
use vstd::prelude::*;
use vstd::utf8::*;

verus! {

/// The manifest text of a package.
pub open spec fn packaged_manifest_text(bytes: Seq<u8>) -> Result<Seq<char>, PackErrorView> {
    match archive::zip_open_fault(bytes) {
        Some(fault) => Err(PackErrorView::ZipError(fault)),
        None => match verify::package_manifest_bytes(bytes) {
            Err(e) => Err(e),
            Ok(raw) => verify::manifest_text(raw),
        },
    }
}

/// Read the raw manifest TOML string from a package: exactly the bytes stored
/// in the package, as text.
pub fn read_manifest_raw(actr_bytes: &[u8]) -> (r: Result<String, PackError>)
    ensures
        match packaged_manifest_text(actr_bytes@) {
            Ok(t) => r matches Ok(s) && s@ == t,
            Err(error) => r matches Err(e) && e@ == error,
        },
{
    let mut archive = match open_archive(actr_bytes) {
        Ok(archive) => archive,
        Err(fault) => return Err(PackError::ZipError(fault)),
    };
    let raw: Vec<u8> = match read_manifest_entry(&mut archive) {
        Ok(raw) => raw,
        Err(e) => return Err(e),
    };
    match manifest_str(raw.as_slice()) {
        Ok(s) => Ok(s.to_owned()),
        Err(e) => Err(e),
    }
}

/// What reading a package's manifest returns, where `parse` turns manifest text
/// into a manifest.
pub open spec fn manifest_read<F: Fn(&str) -> Result<PackageManifest, PackError>>(
    bytes: Seq<u8>,
    parse: F,
    r: Result<PackageManifest, PackError>,
) -> bool {
    match packaged_manifest_text(bytes) {
        Err(error) => r matches Err(e) && e@ == error,
        Ok(t) => exists|s: &str| s@ == t && #[trigger] call_ensures(parse, (s,), r),
    }
}

/// Read the manifest from a package without full verification. `parse` turns
/// the manifest's text into a manifest.
pub fn read_manifest<F: Fn(&str) -> Result<PackageManifest, PackError>>(
    actr_bytes: &[u8],
    parse: F,
) -> (r: Result<PackageManifest, PackError>)
    requires
        forall|s: &str| call_requires(parse, (s,)),
    ensures
        manifest_read(actr_bytes@, parse, r),
{
    let raw: String = match read_manifest_raw(actr_bytes) {
        Ok(s) => s,
        Err(e) => return Err(e),
    };
    let s: &str = raw.as_str();
    let r: Result<PackageManifest, PackError> = parse(s);
    assert(call_ensures(parse, (s,), r));
    r
}

/// A packaged payload under a limit, where its absence means that the binary is
/// missing.
pub open spec fn payload_read(bytes: Seq<u8>, path: Seq<char>, max_bytes: usize) -> Result<
    Seq<u8>,
    PackErrorView,
> {
    match archive::bounded_entry(bytes, path, max_bytes) {
        Ok(content) => Ok(content),
        Err(e) => Err(fault::required_entry_view(e, PackErrorView::BinaryNotFound(path))),
    }
}

/// What loading a package's binary returns.
pub open spec fn binary_read<F: Fn(&str) -> Result<PackageManifest, PackError>>(
    bytes: Seq<u8>,
    max_bytes: usize,
    parse: F,
    r: Result<Vec<u8>, PackError>,
) -> bool {
    exists|parsed: Result<PackageManifest, PackError>| #[trigger]
        manifest_read(bytes, parse, parsed) && (match parsed {
            Err(e) => r matches Err(f) && f@ == e@,
            Ok(m) => match payload_read(bytes, m.binary.path@, max_bytes) {
                Ok(content) => r matches Ok(c) && c@ == content,
                Err(error) => r matches Err(e) && e@ == error,
            },
        })
}

/// Read one payload of a package under a limit.
pub fn read_payload(actr_bytes: &[u8], path: &str, max_bytes: usize) -> (r: Result<
    Vec<u8>,
    PackError,
>)
    ensures
        match archive::zip_open_fault(actr_bytes@) {
            Some(fault) => r matches Err(e) && e@ == PackErrorView::ZipError(fault),
            None => match payload_read(actr_bytes@, path@, max_bytes) {
                Ok(content) => r matches Ok(c) && c@ == content,
                Err(error) => r matches Err(e) && e@ == error,
            },
        },
{
    let mut archive = match open_archive(actr_bytes) {
        Ok(archive) => archive,
        Err(fault) => return Err(PackError::ZipError(fault)),
    };
    match read_zip_entry_bounded(&mut archive, path, max_bytes) {
        Ok(content) => Ok(content),
        Err(e) => Err(required_entry(e, PackError::BinaryNotFound(path.to_owned()))),
    }
}

/// Load the packaged binary while bounding both the manifest and decompressed
/// binary. This is the untrusted-package loading path.
pub fn load_binary_bounded<F: Fn(&str) -> Result<PackageManifest, PackError>>(
    actr_bytes: &[u8],
    max_binary_bytes: usize,
    parse: F,
) -> (r: Result<Vec<u8>, PackError>)
    requires
        forall|s: &str| call_requires(parse, (s,)),
    ensures
        binary_read(actr_bytes@, max_binary_bytes, parse, r),
{
    let parsed: Result<PackageManifest, PackError> = read_manifest(actr_bytes, parse);
    assert(manifest_read(actr_bytes@, parse, parsed));
    let manifest: PackageManifest = match parsed {
        Ok(m) => m,
        Err(e) => return Err(e),
    };
    read_payload(actr_bytes, manifest.binary.path.as_str(), max_binary_bytes)
}

/// Load the binary bytes from a package under
/// [`DEFAULT_MAX_VERIFIED_ENTRY_BYTES`].
pub fn load_binary<F: Fn(&str) -> Result<PackageManifest, PackError>>(
    actr_bytes: &[u8],
    parse: F,
) -> (r: Result<Vec<u8>, PackError>)
    requires
        forall|s: &str| call_requires(parse, (s,)),
    ensures
        binary_read(actr_bytes@, DEFAULT_MAX_VERIFIED_ENTRY_BYTES, parse, r),
{
    load_binary_bounded(actr_bytes, DEFAULT_MAX_VERIFIED_ENTRY_BYTES, parse)
}

/// Read the raw 64-byte Ed25519 signature from a package.
pub fn read_signature(actr_bytes: &[u8]) -> (r: Result<Vec<u8>, PackError>)
    ensures
        match archive::zip_open_fault(actr_bytes@) {
            Some(fault) => r matches Err(e) && e@ == PackErrorView::ZipError(fault),
            None => match verify::package_signature(actr_bytes@) {
                Ok(sig) => r matches Ok(s) && s@ == sig && s@.len() == 64,
                Err(error) => r matches Err(e) && e@ == error,
            },
        },
{
    let mut archive = match open_archive(actr_bytes) {
        Ok(archive) => archive,
        Err(fault) => return Err(PackError::ZipError(fault)),
    };
    read_signature_entry(&mut archive)
}

/// An optional packaged file under a limit: its absence is no error.
pub open spec fn optional_read(bytes: Seq<u8>, path: Seq<char>, max_bytes: usize) -> Result<
    Option<Seq<u8>>,
    PackErrorView,
> {
    match archive::zip_open_fault(bytes) {
        Some(fault) => Err(PackErrorView::ZipError(fault)),
        None => match archive::bounded_entry(bytes, path, max_bytes) {
            Ok(content) => Ok(Some(content)),
            Err(e) => if e == PackErrorView::ZipError(ZipFaultView::FileNotFound) {
                Ok(None)
            } else {
                Err(e)
            },
        },
    }
}

/// Whether an executable outcome has the contents of a specified one.
pub open spec fn same_optional(
    r: Result<Option<Vec<u8>>, PackError>,
    s: Result<Option<Seq<u8>>, PackErrorView>,
) -> bool {
    match s {
        Ok(Some(content)) => r matches Ok(Some(c)) && c@ == content,
        Ok(None) => r matches Ok(None),
        Err(error) => r matches Err(e) && e@ == error,
    }
}

/// Read the packaged lock file at `path` with a decompressed-size limit.
///
/// Callers must still consult the verified manifest before using the result: an
/// unlisted ZIP entry is not authenticated merely because it has the
/// conventional name. Verified-package consumers should pass the manifest's
/// lock file path.
pub fn read_lock_file_bounded(actr_bytes: &[u8], path: &str, max_bytes: usize) -> (r: Result<
    Option<Vec<u8>>,
    PackError,
>)
    ensures
        same_optional(r, optional_read(actr_bytes@, path@, max_bytes)),
{
    let mut archive = match open_archive(actr_bytes) {
        Ok(archive) => archive,
        Err(fault) => return Err(PackError::ZipError(fault)),
    };
    match read_zip_entry_bounded(&mut archive, path, max_bytes) {
        Ok(content) => Ok(Some(content)),
        Err(PackError::ZipError(ZipFault::FileNotFound)) => Ok(None),
        Err(e) => Err(e),
    }
}

/// What reading a package's lock file returns.
pub open spec fn lock_file_read<F: Fn(&str) -> Result<PackageManifest, PackError>>(
    bytes: Seq<u8>,
    parse: F,
    r: Result<Option<Vec<u8>>, PackError>,
) -> bool {
    exists|parsed: Result<PackageManifest, PackError>| #[trigger]
        manifest_read(bytes, parse, parsed) && (match parsed {
            Err(e) => r matches Err(f) && f@ == e@,
            Ok(m) => match m.lock_file {
                None => r matches Ok(None),
                Some(lock) => same_optional(
                    r,
                    optional_read(bytes, lock.path@, DEFAULT_MAX_VERIFIED_ENTRY_BYTES),
                ),
            },
        })
}

/// Read the lock file that the manifest names, if it names one.
pub fn read_lock_file<F: Fn(&str) -> Result<PackageManifest, PackError>>(
    actr_bytes: &[u8],
    parse: F,
) -> (r: Result<Option<Vec<u8>>, PackError>)
    requires
        forall|s: &str| call_requires(parse, (s,)),
    ensures
        lock_file_read(actr_bytes@, parse, r),
{
    let parsed: Result<PackageManifest, PackError> = read_manifest(actr_bytes, parse);
    assert(manifest_read(actr_bytes@, parse, parsed));
    let manifest: PackageManifest = match parsed {
        Ok(m) => m,
        Err(e) => return Err(e),
    };
    match &manifest.lock_file {
        None => Ok(None),
        Some(lock) => read_lock_file_bounded(
            actr_bytes,
            lock.path.as_str(),
            DEFAULT_MAX_VERIFIED_ENTRY_BYTES,
        ),
    }
}

/// Whether a resource path is guest glue: a `.js` file under `resources/` that
/// is not named `actor.sw.js`, which is the Service Worker runtime itself.
pub open spec fn is_glue_path(path: Seq<char>) -> bool {
    &&& "resources/"@.is_prefix_of(path)
    &&& ".js"@.is_suffix_of(path)
    &&& !"/actor.sw.js"@.is_suffix_of(path)
}

/// The first glue path from position `i` on among a manifest's resources.
pub open spec fn first_glue_from(resources: Seq<ResourceEntry>, i: nat) -> Option<Seq<char>>
    decreases resources.len() - i,
{
    if i >= resources.len() {
        None
    } else if is_glue_path(resources[i as int].path@) {
        Some(resources[i as int].path@)
    } else {
        first_glue_from(resources, i + 1)
    }
}

/// The glue script of a package with manifest `m`, under a limit.
pub open spec fn glue_text(bytes: Seq<u8>, m: PackageManifest, max_bytes: usize) -> Result<
    Option<Seq<char>>,
    PackErrorView,
> {
    match first_glue_from(m.resources@, 0) {
        None => Ok(None),
        Some(name) => match archive::zip_open_fault(bytes) {
            Some(fault) => Err(PackErrorView::ZipError(fault)),
            None => match archive::bounded_entry(bytes, name, max_bytes) {
                Err(e) => Err(e),
                Ok(content) => if valid_utf8(content) {
                    Ok(Some(decode_utf8(content)))
                } else {
                    Err(
                        PackErrorView::InvalidPackage(
                            "read `"@ + name + "` as UTF-8: "@ + text::utf8_error_text(content),
                        ),
                    )
                },
            },
        },
    }
}

/// Whether an executable text outcome has the contents of a specified one.
pub open spec fn same_text_outcome(
    r: Result<Option<String>, PackError>,
    s: Result<Option<Seq<char>>, PackErrorView>,
) -> bool {
    match s {
        Ok(Some(t)) => r matches Ok(Some(c)) && c@ == t,
        Ok(None) => r matches Ok(None),
        Err(error) => r matches Err(e) && e@ == error,
    }
}

/// Read the manifest-declared JS glue file under a decompressed-size limit:
/// the first eligible resource, or `None` where the manifest has none.
///
/// Callers that already verified a package should pass the returned verified
/// manifest, ensuring the selected path and hash are authenticated.
pub fn read_glue_js_bounded(
    actr_bytes: &[u8],
    manifest: &PackageManifest,
    max_bytes: usize,
) -> (r: Result<Option<String>, PackError>)
    ensures
        same_text_outcome(r, glue_text(actr_bytes@, *manifest, max_bytes)),
{
    let mut target: Option<usize> = None;
    let mut i: usize = 0;
    while i < manifest.resources.len() && target.is_none()
        invariant
            i <= manifest.resources@.len(),
            target is None ==> first_glue_from(manifest.resources@, 0) == first_glue_from(
                manifest.resources@,
                i as nat,
            ),
            target matches Some(t) ==> t < manifest.resources@.len() && first_glue_from(
                manifest.resources@,
                0,
            ) == Some(manifest.resources@[t as int].path@),
        decreases manifest.resources@.len() - i,
    {
        let path: &str = manifest.resources[i].path.as_str();
        if has_prefix(path, "resources/") && has_suffix(path, ".js") && !has_suffix(
            path,
            "/actor.sw.js",
        ) {
            target = Some(i);
        }
        i = i + 1;
    }
    let name: &str = match target {
        Some(t) => manifest.resources[t].path.as_str(),
        None => return Ok(None),
    };
    let mut archive = match open_archive(actr_bytes) {
        Ok(archive) => archive,
        Err(fault) => return Err(PackError::ZipError(fault)),
    };
    let content: Vec<u8> = match read_zip_entry_bounded(&mut archive, name, max_bytes) {
        Ok(content) => content,
        Err(e) => return Err(e),
    };
    match from_utf8(content.as_slice()) {
        Ok(s) => Ok(Some(s.to_owned())),
        Err(t) => {
            let head: String = cat3("read `", name, "` as UTF-8: ");
            Err(PackError::InvalidPackage(cat(head.as_str(), t.as_str())))
        },
    }
}

/// What reading a package's glue script returns.
pub open spec fn glue_read<F: Fn(&str) -> Result<PackageManifest, PackError>>(
    bytes: Seq<u8>,
    parse: F,
    r: Result<Option<String>, PackError>,
) -> bool {
    exists|parsed: Result<PackageManifest, PackError>| #[trigger]
        manifest_read(bytes, parse, parsed) && (match parsed {
            Err(e) => r matches Err(f) && f@ == e@,
            Ok(m) => same_text_outcome(r, glue_text(bytes, m, DEFAULT_MAX_VERIFIED_ENTRY_BYTES)),
        })
}

/// Read a single manifest-declared JS glue file from a package.
pub fn read_glue_js<F: Fn(&str) -> Result<PackageManifest, PackError>>(
    actr_bytes: &[u8],
    parse: F,
) -> (r: Result<Option<String>, PackError>)
    requires
        forall|s: &str| call_requires(parse, (s,)),
    ensures
        glue_read(actr_bytes@, parse, r),
{
    let parsed: Result<PackageManifest, PackError> = read_manifest(actr_bytes, parse);
    assert(manifest_read(actr_bytes@, parse, parsed));
    let manifest: PackageManifest = match parsed {
        Ok(m) => m,
        Err(e) => return Err(e),
    };
    read_glue_js_bounded(actr_bytes, &manifest, DEFAULT_MAX_VERIFIED_ENTRY_BYTES)
}

/// The proto files of a manifest from position `i` on, where `total` bytes were
/// read before, under one cumulative budget; or why reading stops.
pub open spec fn protos_from(
    bytes: Seq<u8>,
    protos: Seq<ProtoFileEntry>,
    max_total_bytes: usize,
    i: nat,
    total: nat,
) -> Result<Seq<(Seq<char>, Seq<u8>)>, PackErrorView>
    decreases protos.len() - i,
{
    if i >= protos.len() {
        Ok(Seq::empty())
    } else {
        let entry = protos[i as int];
        let remaining = if total <= max_total_bytes {
            (max_total_bytes - total) as usize
        } else {
            0
        };
        match payload_read(bytes, entry.path@, remaining) {
            Err(e) => Err(e),
            Ok(content) => match protos_from(
                bytes,
                protos,
                max_total_bytes,
                i + 1,
                total + content.len(),
            ) {
                Err(e) => Err(e),
                Ok(rest) => Ok(seq![(entry.name@, content)] + rest),
            },
        }
    }
}

/// The proto files of a package with manifest `m`, under one budget.
pub open spec fn proto_files_of(bytes: Seq<u8>, m: PackageManifest, max_total_bytes: usize) -> Result<
    Seq<(Seq<char>, Seq<u8>)>,
    PackErrorView,
> {
    if m.proto_files@.len() > DEFAULT_MAX_VERIFIED_ENTRIES {
        Err(
            PackErrorView::InvalidPackage(
                "manifest declares "@ + text::decimal_text(m.proto_files@.len())
                    + " proto files, exceeds limit "@ + text::decimal_text(
                    DEFAULT_MAX_VERIFIED_ENTRIES as nat,
                ),
            ),
        )
    } else {
        match archive::zip_open_fault(bytes) {
            Some(fault) => Err(PackErrorView::ZipError(fault)),
            None => protos_from(bytes, m.proto_files@, max_total_bytes, 0, 0),
        }
    }
}

/// Names and contents of a list of proto files.
pub open spec fn proto_views(files: Seq<(String, Vec<u8>)>) -> Seq<(Seq<char>, Seq<u8>)> {
    files.map_values(|f: (String, Vec<u8>)| (f.0@, f.1@))
}

/// Whether an executable proto-file outcome has the contents of a specified
/// one.
pub open spec fn same_protos(
    r: Result<Vec<(String, Vec<u8>)>, PackError>,
    s: Result<Seq<(Seq<char>, Seq<u8>)>, PackErrorView>,
) -> bool {
    match s {
        Ok(files) => r matches Ok(f) && proto_views(f@) == files,
        Err(error) => r matches Err(e) && e@ == error,
    }
}

/// Read manifest-declared proto files under one cumulative decompression
/// budget. Selecting paths from a verified manifest prevents unsigned ZIP
/// entries from being forwarded by package consumers.
pub fn read_proto_files_bounded(
    actr_bytes: &[u8],
    manifest: &PackageManifest,
    max_total_bytes: usize,
) -> (r: Result<Vec<(String, Vec<u8>)>, PackError>)
    ensures
        same_protos(r, proto_files_of(actr_bytes@, *manifest, max_total_bytes)),
{
    if manifest.proto_files.len() > DEFAULT_MAX_VERIFIED_ENTRIES {
        let n: String = decimal(manifest.proto_files.len() as u64);
        let limit: String = decimal(DEFAULT_MAX_VERIFIED_ENTRIES as u64);
        let head: String = cat3(
            "manifest declares ",
            n.as_str(),
            " proto files, exceeds limit ",
        );
        return Err(PackError::InvalidPackage(cat(head.as_str(), limit.as_str())));
    }
    let mut archive = match open_archive(actr_bytes) {
        Ok(archive) => archive,
        Err(fault) => return Err(PackError::ZipError(fault)),
    };
    let ghost protos = manifest.proto_files@;
    let ghost expected = protos_from(actr_bytes@, protos, max_total_bytes, 0, 0);
    let mut result: Vec<(String, Vec<u8>)> = Vec::new();
    let mut total: usize = 0;
    let mut i: usize = 0;
    proof {
        assert(proto_views(result@) =~= Seq::empty());
        match expected {
            Ok(rest) => {
                assert(proto_views(result@) + rest =~= rest);
            },
            Err(_) => {},
        }
    }
    while i < manifest.proto_files.len()
        invariant
            i <= manifest.proto_files@.len(),
            protos == manifest.proto_files@,
            archive::archive_bytes(archive) == actr_bytes@,
            total <= max_total_bytes,
            expected == proto_files_of(actr_bytes@, *manifest, max_total_bytes),
            expected == (match protos_from(
                actr_bytes@,
                protos,
                max_total_bytes,
                i as nat,
                total as nat,
            ) {
                Ok(rest) => Ok::<Seq<(Seq<char>, Seq<u8>)>, PackErrorView>(
                    proto_views(result@) + rest,
                ),
                Err(e) => Err(e),
            }),
        decreases manifest.proto_files@.len() - i,
    {
        let entry: &ProtoFileEntry = &manifest.proto_files[i];
        let remaining: usize = max_total_bytes.saturating_sub(total);
        let content: Vec<u8> = match read_zip_entry_bounded(
            &mut archive,
            entry.path.as_str(),
            remaining,
        ) {
            Ok(content) => content,
            Err(e) => return Err(required_entry(e, PackError::BinaryNotFound(entry.path.clone()))),
        };
        let ghost before = result@;
        let ghost added = (entry.name@, content@);
        let ghost rest = protos_from(
            actr_bytes@,
            protos,
            max_total_bytes,
            (i + 1) as nat,
            (total + content@.len()) as nat,
        );
        total = total + content.len();
        result.push((entry.name.clone(), content));
        proof {
            assert(proto_views(result@) =~= proto_views(before).push(added));
            match rest {
                Ok(files) => {
                    assert(proto_views(before) + (seq![added] + files) =~= proto_views(result@)
                        + files);
                },
                Err(_) => {},
            }
        }
        i = i + 1;
    }
    assert(proto_views(result@) + Seq::<(Seq<char>, Seq<u8>)>::empty() =~= proto_views(result@));
    Ok(result)
}

/// What reading a package's proto files returns.
pub open spec fn protos_read<F: Fn(&str) -> Result<PackageManifest, PackError>>(
    bytes: Seq<u8>,
    parse: F,
    r: Result<Vec<(String, Vec<u8>)>, PackError>,
) -> bool {
    exists|parsed: Result<PackageManifest, PackError>| #[trigger]
        manifest_read(bytes, parse, parsed) && (match parsed {
            Err(e) => r matches Err(f) && f@ == e@,
            Ok(m) => same_protos(r, proto_files_of(bytes, m, DEFAULT_MAX_VERIFIED_ENTRY_BYTES)),
        })
}

/// Read all manifest-declared proto files from a package, as (name, content)
/// pairs in manifest order.
pub fn read_proto_files<F: Fn(&str) -> Result<PackageManifest, PackError>>(
    actr_bytes: &[u8],
    parse: F,
) -> (r: Result<Vec<(String, Vec<u8>)>, PackError>)
    requires
        forall|s: &str| call_requires(parse, (s,)),
    ensures
        protos_read(actr_bytes@, parse, r),
{
    let parsed: Result<PackageManifest, PackError> = read_manifest(actr_bytes, parse);
    assert(manifest_read(actr_bytes@, parse, parsed));
    let manifest: PackageManifest = match parsed {
        Ok(m) => m,
        Err(e) => return Err(e),
    };
    read_proto_files_bounded(actr_bytes, &manifest, DEFAULT_MAX_VERIFIED_ENTRY_BYTES)
}

/// The contents that a package holds for a proto file.
pub open spec fn proto_content(bytes: Seq<u8>, entry: ProtoFileEntry) -> Option<Seq<u8>> {
    archive::zip_entry_content(bytes, entry.path@)
}

proof fn lemma_protos_names(
    bytes: Seq<u8>,
    protos: Seq<ProtoFileEntry>,
    max_total_bytes: usize,
    i: nat,
    total: nat,
)
    requires
        i <= protos.len(),
        total <= max_total_bytes,
        protos_from(bytes, protos, max_total_bytes, i, total) is Ok,
    ensures
        protos_from(bytes, protos, max_total_bytes, i, total)->Ok_0.len() == protos.len() - i,
        forall|j: int|
            0 <= j < protos.len() - i ==> (#[trigger] protos_from(
                bytes,
                protos,
                max_total_bytes,
                i,
                total,
            )->Ok_0[j]).0 == protos[i + j].name@ && proto_content(bytes, protos[i + j]) == Some(
                protos_from(bytes, protos, max_total_bytes, i, total)->Ok_0[j].1,
            ),
        total + content_size(protos_from(bytes, protos, max_total_bytes, i, total)->Ok_0)
            <= max_total_bytes,
    decreases protos.len() - i,
{
    if i < protos.len() {
        let remaining = (max_total_bytes - total) as usize;
        let content = payload_read(bytes, protos[i as int].path@, remaining)->Ok_0;
        lemma_protos_names(bytes, protos, max_total_bytes, i + 1, total + content.len());
        let rest = protos_from(bytes, protos, max_total_bytes, i + 1, total + content.len())->Ok_0;
        let all = protos_from(bytes, protos, max_total_bytes, i, total)->Ok_0;
        assert(all.skip(1) =~= rest);
        assert forall|j: int| 0 <= j < protos.len() - i implies (#[trigger] all[j]).0 == protos[i
            + j].name@ && proto_content(bytes, protos[i + j]) == Some(all[j].1) by {
            if j > 0 {
                assert(all[j] == rest[j - 1]);
                assert(rest[j - 1].0 == protos[i + 1 + (j - 1)].name@);
            }
        }
    }
}

/// The total size of some named contents.
pub open spec fn content_size(files: Seq<(Seq<char>, Seq<u8>)>) -> nat
    decreases files.len(),
{
    if files.len() == 0 {
        0
    } else {
        files[0].1.len() + content_size(files.skip(1))
    }
}

/// Reading proto files gives exactly the files that the manifest names, in its
/// order, each with the contents of the entry at its path, and together they stay
/// within the budget: entries that the manifest does not name never appear.
pub proof fn only_declared_proto_files_are_read(
    bytes: Seq<u8>,
    m: PackageManifest,
    max_total_bytes: usize,
)
    requires
        proto_files_of(bytes, m, max_total_bytes) is Ok,
    ensures
        proto_files_of(bytes, m, max_total_bytes)->Ok_0.len() == m.proto_files@.len(),
        forall|j: int|
            0 <= j < m.proto_files@.len() ==> (#[trigger] proto_files_of(
                bytes,
                m,
                max_total_bytes,
            )->Ok_0[j]).0 == m.proto_files@[j].name@ && proto_content(bytes, m.proto_files@[j])
                == Some(proto_files_of(bytes, m, max_total_bytes)->Ok_0[j].1),
        content_size(proto_files_of(bytes, m, max_total_bytes)->Ok_0) <= max_total_bytes,
{
    lemma_protos_names(bytes, m.proto_files@, max_total_bytes, 0, 0);
    assert forall|j: int| 0 <= j < m.proto_files@.len() implies (#[trigger] proto_files_of(
        bytes,
        m,
        max_total_bytes,
    )->Ok_0[j]).0 == m.proto_files@[j].name@ && proto_content(bytes, m.proto_files@[j]) == Some(
        proto_files_of(bytes, m, max_total_bytes)->Ok_0[j].1,
    ) by {
        assert(protos_from(bytes, m.proto_files@, max_total_bytes, 0, 0)->Ok_0[j].0
            == m.proto_files@[0 + j].name@);
    }
}

/// A manifest without eligible resources has no glue script, whatever else the
/// archive holds.
pub proof fn undeclared_glue_is_ignored(bytes: Seq<u8>, m: PackageManifest, max_bytes: usize)
    requires
        forall|i: int| 0 <= i < m.resources@.len() ==> !is_glue_path(#[trigger] m.resources@[i].path@),
    ensures
        glue_text(bytes, m, max_bytes) == Ok::<Option<Seq<char>>, PackErrorView>(None),
{
    lemma_no_glue(m.resources@, 0);
}

proof fn lemma_no_glue(resources: Seq<ResourceEntry>, i: nat)
    requires
        forall|j: int| 0 <= j < resources.len() ==> !is_glue_path(#[trigger] resources[j].path@),
    ensures
        first_glue_from(resources, i) is None,
    decreases resources.len() - i,
{
    if i < resources.len() {
        lemma_no_glue(resources, i + 1);
    }
}

proof fn lemma_first_glue(resources: Seq<ResourceEntry>, i: nat)
    requires
        i <= resources.len(),
    ensures
        match first_glue_from(resources, i) {
            Some(path) => exists|k: int|
                i <= k < resources.len() && (#[trigger] resources[k]).path@ == path
                    && is_glue_path(path) && forall|j: int|
                    i <= j < k ==> !is_glue_path((#[trigger] resources[j]).path@),
            None => forall|j: int|
                i <= j < resources.len() ==> !is_glue_path((#[trigger] resources[j]).path@),
        },
    decreases resources.len() - i,
{
    if i < resources.len() {
        if is_glue_path(resources[i as int].path@) {
            assert(resources[i as int].path@ == first_glue_from(resources, i)->Some_0);
        } else {
            lemma_first_glue(resources, i + 1);
            if let Some(path) = first_glue_from(resources, i) {
                let k = choose|k: int|
                    i + 1 <= k < resources.len() && (#[trigger] resources[k]).path@ == path
                        && is_glue_path(path) && forall|j: int|
                        i + 1 <= j < k ==> !is_glue_path((#[trigger] resources[j]).path@);
                assert(resources[k].path@ == path);
            }
        }
    }
}

/// The glue script is the text of the first resource of the manifest that is one, and it is
/// never another entry of the archive.
pub proof fn glue_is_the_first_eligible_resource(
    bytes: Seq<u8>,
    m: PackageManifest,
    max_bytes: usize,
)
    ensures
        glue_text(bytes, m, max_bytes) matches Ok(Some(t)) ==> exists|k: int|
            0 <= k < m.resources@.len() && is_glue_path((#[trigger] m.resources@[k]).path@)
                && (forall|j: int|
                0 <= j < k ==> !is_glue_path((#[trigger] m.resources@[j]).path@)) && (
            archive::zip_entry_content(bytes, m.resources@[k].path@) matches Some(content)
                && content.len() <= max_bytes && valid_utf8(content) && t == decode_utf8(content)),
        glue_text(bytes, m, max_bytes) == Ok::<Option<Seq<char>>, PackErrorView>(None)
            <==> forall|j: int|
            0 <= j < m.resources@.len() ==> !is_glue_path((#[trigger] m.resources@[j]).path@),
{
    lemma_first_glue(m.resources@, 0);
    if let Some(path) = first_glue_from(m.resources@, 0) {
        let k = choose|k: int|
            0 <= k < m.resources@.len() && (#[trigger] m.resources@[k]).path@ == path
                && is_glue_path(path) && forall|j: int|
                0 <= j < k ==> !is_glue_path((#[trigger] m.resources@[j]).path@);
        assert(is_glue_path(m.resources@[k].path@));
        if let Ok(Some(t)) = glue_text(bytes, m, max_bytes) {
            let content = archive::bounded_entry(bytes, path, max_bytes)->Ok_0;
            archive::entries_within_the_limit_are_given_whole(bytes, path, max_bytes, content);
        }
    }
}

/// A resource is guest glue by the name of its file: in any directory under `resources`, a
/// script whose name ends in `.js` and is not exactly `actor.sw.js`.
pub proof fn glue_is_told_by_file_name(dir: Seq<char>, name: Seq<char>)
    requires
        dir.len() == 0 || dir[0] == '/',
        !name.contains('/'),
    ensures
        is_glue_path("resources"@ + dir + "/"@ + name) <==> ".js"@.is_suffix_of(name) && name
            != "actor.sw.js"@,
{
    reveal_strlit("resources");
    reveal_strlit("resources/");
    reveal_strlit("/");
    reveal_strlit(".js");
    reveal_strlit("actor.sw.js");
    reveal_strlit("/actor.sw.js");
    let path = "resources"@ + dir + "/"@ + name;
    let n = path.len() as int;
    let at = n - name.len() - 1;
    assert(path[at] == '/');
    assert forall|i: int| 0 <= i < name.len() implies path[at + 1 + i] == #[trigger] name[i] by {}
    assert("resources/"@ =~= path.take(10)) by {
        assert(path[9] == '/');
    }
    assert("resources/"@.is_prefix_of(path));
    let js = ".js"@;
    assert(js.is_suffix_of(path) <==> js.is_suffix_of(name)) by {
        if name.len() < 3 {
            assert(path[at] == '/');
            if js.is_suffix_of(path) {
                assert(path.subrange(n - 3, n)[at - (n - 3)] == js[at - (n - 3)]);
            }
        } else {
            assert(path.subrange(n - 3, n) =~= name.subrange(name.len() - 3, name.len() as int));
        }
    }
    let sw = "/actor.sw.js"@;
    let file = "actor.sw.js"@;
    assert(sw.is_suffix_of(path) <==> name == file) by {
        if name == file {
            assert(path.subrange(n - 12, n) =~= sw);
        }
        if sw.is_suffix_of(path) {
            let tail = path.subrange(n - 12, n);
            assert(tail == sw);
            assert(tail[0] == '/');
            if name.len() >= 12 {
                assert(name[name.len() - 12] == path[n - 12]);
                assert(false);
            }
            if name.len() < 11 {
                assert(tail[at - (n - 12)] == '/');
                assert(sw[at - (n - 12)] == '/');
                assert(false);
            }
            assert(name =~= file) by {
                assert forall|i: int| 0 <= i < 11 implies name[i] == file[i] by {
                    assert(tail[i + 1] == path[at + 1 + i]);
                    assert(sw[i + 1] == file[i]);
                }
            }
        }
    }
}

/// Reading under a limit gives the whole entry at the path, names a missing one, and reads
/// an absent optional file as absent, not as an error.
pub proof fn readers_give_whole_entries(
    bytes: Seq<u8>,
    path: Seq<char>,
    max_bytes: usize,
    content: Seq<u8>,
)
    ensures
        payload_read(bytes, path, max_bytes) == Ok::<Seq<u8>, PackErrorView>(content) ==>
            archive::zip_entry_content(bytes, path) == Some(content) && content.len() <= max_bytes,
        archive::zip_entry_size(bytes, path) == Err::<u64, ZipFaultView>(
            ZipFaultView::FileNotFound,
        ) ==> payload_read(bytes, path, max_bytes) == Err::<Seq<u8>, PackErrorView>(
            PackErrorView::BinaryNotFound(path),
        ),
        optional_read(bytes, path, max_bytes) == Ok::<Option<Seq<u8>>, PackErrorView>(
            Some(content),
        ) ==> archive::zip_entry_content(bytes, path) == Some(content) && content.len()
            <= max_bytes,
        archive::zip_open_fault(bytes) is None && archive::zip_entry_size(bytes, path) == Err::<
            u64,
            ZipFaultView,
        >(ZipFaultView::FileNotFound) ==> optional_read(bytes, path, max_bytes) == Ok::<
            Option<Seq<u8>>,
            PackErrorView,
        >(None),
        archive::zip_entry_size(bytes, path) is Ok && archive::zip_entry_content(bytes, path)
            is Some ==> optional_read(bytes, path, max_bytes) != Ok::<
            Option<Seq<u8>>,
            PackErrorView,
        >(None),
        archive::zip_entry_content(bytes, path) == Some(content) && content.len() <= max_bytes
            && content.len() < u64::MAX && (archive::zip_entry_size(bytes, path) matches Ok(size)
            && size <= max_bytes) ==> payload_read(bytes, path, max_bytes) == Ok::<
            Seq<u8>,
            PackErrorView,
        >(content),
{
    archive::entries_within_the_limit_are_given_whole(bytes, path, max_bytes, content);
}

proof fn lemma_protos_are_read(
    bytes: Seq<u8>,
    protos: Seq<ProtoFileEntry>,
    max_total_bytes: usize,
    i: nat,
    total: nat,
)
    requires
        i <= protos.len(),
        forall|j: int|
            0 <= j < protos.len() ==> verify::honest_entry(bytes, (#[trigger] protos[j]).path@)
                && proto_content(bytes, protos[j])->Some_0.len() < u64::MAX,
        total + proto_sizes(bytes, protos, i) <= max_total_bytes,
    ensures
        protos_from(bytes, protos, max_total_bytes, i, total) is Ok,
    decreases protos.len() - i,
{
    if i < protos.len() {
        let entry = protos[i as int];
        assert(verify::honest_entry(bytes, entry.path@));
        let content = proto_content(bytes, entry)->Some_0;
        let remaining = (max_total_bytes - total) as usize;
        archive::entries_within_the_limit_are_given_whole(bytes, entry.path@, remaining, content);
        lemma_protos_are_read(bytes, protos, max_total_bytes, i + 1, total + content.len());
    }
}

/// The sizes of the proto files from position `i` on, together.
pub open spec fn proto_sizes(bytes: Seq<u8>, protos: Seq<ProtoFileEntry>, i: nat) -> nat
    decreases protos.len() - i,
{
    if i >= protos.len() {
        0
    } else {
        (match proto_content(bytes, protos[i as int]) {
            Some(content) => content.len(),
            None => 0,
        }) + proto_sizes(bytes, protos, i + 1)
    }
}

/// The proto files of a sound package are read whenever there are no more than 1024 of them
/// and they fit in the budget together.
pub proof fn declared_proto_files_are_read(
    bytes: Seq<u8>,
    m: PackageManifest,
    max_total_bytes: usize,
)
    requires
        archive::zip_open_fault(bytes) is None,
        m.proto_files@.len() <= 1024,
        forall|j: int|
            0 <= j < m.proto_files@.len() ==> verify::honest_entry(
                bytes,
                (#[trigger] m.proto_files@[j]).path@,
            ) && proto_content(bytes, m.proto_files@[j])->Some_0.len() < u64::MAX,
        proto_sizes(bytes, m.proto_files@, 0) <= max_total_bytes,
    ensures
        proto_files_of(bytes, m, max_total_bytes) is Ok,
{
    lemma_protos_are_read(bytes, m.proto_files@, max_total_bytes, 0, 0);
}

/// The manifest text of a package is that of its `manifest.toml`, at most a mebibyte of it,
/// and nothing else.
pub proof fn manifest_texts_are_the_packaged_ones(bytes: Seq<u8>)
    ensures
        packaged_manifest_text(bytes) matches Ok(t) ==> archive::zip_open_fault(bytes) is None && (
        archive::zip_entry_content(bytes, "manifest.toml"@) matches Some(raw) && raw.len()
            <= 1048576 && valid_utf8(raw) && t == decode_utf8(raw)),
        archive::zip_open_fault(bytes) is None && (archive::zip_entry_content(
            bytes,
            "manifest.toml"@,
        ) matches Some(raw) && raw.len() <= 1048576 && valid_utf8(raw)) && (
        archive::zip_entry_size(bytes, "manifest.toml"@) matches Ok(size) && size <= 1048576)
            ==> packaged_manifest_text(bytes) is Ok,
{
    if let Some(raw) = archive::zip_entry_content(bytes, "manifest.toml"@) {
        archive::entries_within_the_limit_are_given_whole(
            bytes,
            "manifest.toml"@,
            verify::MAX_MANIFEST_BYTES,
            raw,
        );
    }
}

/// The binary that is loaded is the one that the manifest names, whole and within the limit.
pub proof fn loaded_binaries_are_those_named<F: Fn(&str) -> Result<PackageManifest, PackError>>(
    bytes: Seq<u8>,
    max_bytes: usize,
    parse: F,
    content: Vec<u8>,
)
    requires
        binary_read(bytes, max_bytes, parse, Ok(content)),
    ensures
        exists|m: PackageManifest| #[trigger]
            manifest_read(bytes, parse, Ok(m)) && archive::zip_entry_content(bytes, m.binary.path@)
                == Some(content@) && content@.len() <= max_bytes,
{
    let parsed = choose|parsed: Result<PackageManifest, PackError>| #[trigger]
        manifest_read(bytes, parse, parsed) && (match parsed {
            Err(e) => false,
            Ok(m) => payload_read(bytes, m.binary.path@, max_bytes) == Ok::<
                Seq<u8>,
                PackErrorView,
            >(content@),
        });
    let m = parsed->Ok_0;
    archive::entries_within_the_limit_are_given_whole(
        bytes,
        m.binary.path@,
        max_bytes,
        content@,
    );
    assert(manifest_read(bytes, parse, Ok(m)));
}

/// The lock file that is read is the one that the manifest names; none is read where it names
/// none.
pub proof fn read_lock_files_are_those_named<F: Fn(&str) -> Result<PackageManifest, PackError>>(
    bytes: Seq<u8>,
    parse: F,
    content: Vec<u8>,
)
    requires
        lock_file_read(bytes, parse, Ok(Some(content))),
    ensures
        exists|m: PackageManifest| #[trigger]
            manifest_read(bytes, parse, Ok(m)) && (m.lock_file matches Some(lock)
                && archive::zip_entry_content(bytes, lock.path@) == Some(content@) && content@.len()
                <= 67108864),
{
    let parsed = choose|parsed: Result<PackageManifest, PackError>| #[trigger]
        manifest_read(bytes, parse, parsed) && (match parsed {
            Err(e) => false,
            Ok(m) => match m.lock_file {
                None => false,
                Some(lock) => same_optional(
                    Ok(Some(content)),
                    optional_read(bytes, lock.path@, DEFAULT_MAX_VERIFIED_ENTRY_BYTES),
                ),
            },
        });
    let m = parsed->Ok_0;
    let lock = m.lock_file->Some_0;
    archive::entries_within_the_limit_are_given_whole(
        bytes,
        lock.path@,
        DEFAULT_MAX_VERIFIED_ENTRY_BYTES,
        content@,
    );
    assert(manifest_read(bytes, parse, Ok(m)));
}

/// No more than 1024 proto files are read, however small they are.
pub proof fn proto_files_are_limited(bytes: Seq<u8>, m: PackageManifest, max_total_bytes: usize)
    ensures
        proto_files_of(bytes, m, max_total_bytes) is Ok ==> m.proto_files@.len() <= 1024
            && archive::zip_open_fault(bytes) is None,
        m.proto_files@.len() > 1024 ==> (proto_files_of(bytes, m, max_total_bytes) matches Err(
            PackErrorView::InvalidPackage(_),
        )),
{
}

/// A manifest that cannot be read or does not parse stops every reader with its own error: no
/// reader makes up contents of its own.
pub proof fn unreadable_manifests_stop_every_reader<
    F: Fn(&str) -> Result<PackageManifest, PackError>,
>(
    bytes: Seq<u8>,
    max_bytes: usize,
    parse: F,
    binary: Result<Vec<u8>, PackError>,
    lock: Result<Option<Vec<u8>>, PackError>,
    glue: Result<Option<String>, PackError>,
    protos: Result<Vec<(String, Vec<u8>)>, PackError>,
)
    requires
        packaged_manifest_text(bytes) is Err,
        binary_read(bytes, max_bytes, parse, binary),
        lock_file_read(bytes, parse, lock),
        glue_read(bytes, parse, glue),
        protos_read(bytes, parse, protos),
    ensures
        binary matches Err(e) && e@ == packaged_manifest_text(bytes)->Err_0,
        lock matches Err(e) && e@ == packaged_manifest_text(bytes)->Err_0,
        glue matches Err(e) && e@ == packaged_manifest_text(bytes)->Err_0,
        protos matches Err(e) && e@ == packaged_manifest_text(bytes)->Err_0,
{
}

/// A glue script that is read is that of the manifest that was read, under the default limit.
pub proof fn read_glue_is_that_of_the_manifest<F: Fn(&str) -> Result<PackageManifest, PackError>>(
    bytes: Seq<u8>,
    parse: F,
    script: Option<String>,
)
    requires
        glue_read(bytes, parse, Ok(script)),
    ensures
        exists|m: PackageManifest| #[trigger]
            manifest_read(bytes, parse, Ok(m)) && (match script {
                Some(t) => glue_text(bytes, m, 67108864) == Ok::<Option<Seq<char>>, PackErrorView>(
                    Some(t@),
                ),
                None => glue_text(bytes, m, 67108864) == Ok::<Option<Seq<char>>, PackErrorView>(
                    None,
                ),
            }),
{
    let parsed = choose|parsed: Result<PackageManifest, PackError>| #[trigger]
        manifest_read(bytes, parse, parsed) && (match parsed {
            Err(e) => false,
            Ok(m) => same_text_outcome(
                Ok(script),
                glue_text(bytes, m, DEFAULT_MAX_VERIFIED_ENTRY_BYTES),
            ),
        });
    assert(manifest_read(bytes, parse, Ok(parsed->Ok_0)));
}

/// Proto files that are read are those of the manifest that was read, in its order and under
/// its names.
pub proof fn read_proto_files_are_those_of_the_manifest<
    F: Fn(&str) -> Result<PackageManifest, PackError>,
>(bytes: Seq<u8>, parse: F, files: Vec<(String, Vec<u8>)>)
    requires
        protos_read(bytes, parse, Ok(files)),
    ensures
        exists|m: PackageManifest| #[trigger]
            manifest_read(bytes, parse, Ok(m)) && files@.len() == m.proto_files@.len() && forall|
                j: int,
            |
                0 <= j < files@.len() ==> (#[trigger] files@[j]).0@ == m.proto_files@[j].name@
                    && proto_content(bytes, m.proto_files@[j]) == Some(files@[j].1@),
{
    let parsed = choose|parsed: Result<PackageManifest, PackError>| #[trigger]
        manifest_read(bytes, parse, parsed) && (match parsed {
            Err(e) => false,
            Ok(m) => same_protos(
                Ok(files),
                proto_files_of(bytes, m, DEFAULT_MAX_VERIFIED_ENTRY_BYTES),
            ),
        });
    let m = parsed->Ok_0;
    assert(manifest_read(bytes, parse, Ok(m)));
    only_declared_proto_files_are_read(bytes, m, DEFAULT_MAX_VERIFIED_ENTRY_BYTES);
    let read = proto_files_of(bytes, m, DEFAULT_MAX_VERIFIED_ENTRY_BYTES)->Ok_0;
    assert(proto_views(files@) == read);
    assert forall|j: int| 0 <= j < files@.len() implies (#[trigger] files@[j]).0@
        == m.proto_files@[j].name@ && proto_content(bytes, m.proto_files@[j]) == Some(
        files@[j].1@,
    ) by {
        assert(proto_views(files@)[j] == (files@[j].0@, files@[j].1@));
        assert(read[j].0 == m.proto_files@[j].name@);
    }
}

} // verus!
