//! Reading and verifying packages.

use actr_hyper::pack::archive::sha256_hex;
use actr_hyper::pack::fault::{PackError, ZipFault};
use actr_hyper::pack::load::{
    load_binary, load_binary_bounded, read_glue_js, read_glue_js_bounded, read_lock_file,
    read_lock_file_bounded, read_manifest, read_manifest_raw, read_proto_files,
    read_proto_files_bounded, read_signature,
};
use actr_hyper::pack::manifest::{
    is_sha256_hex, validate_manifest_integrity_fields, BinaryEntry, BinaryKind, LockFileEntry,
    ManifestMetadata, PackageManifest, ProtoFileEntry, ResourceEntry,
};
use actr_hyper::pack::verify::{
    verify, verify_bounded, verify_payloads, verify_with_limits, PackageVerificationLimits,
    MAX_MANIFEST_BYTES,
};
use actr_hyper::test_support::inspect_workload_package;
use ed25519_dalek::{Signer, SigningKey};
use std::io::{Cursor, Write};

// ── manifests as text ────────────────────────────────────────────────────────

fn quoted(t: &str) -> String {
    toml::Value::String(t.to_string()).to_string()
}

fn to_toml(m: &PackageManifest) -> String {
    let mut out = String::new();
    out.push_str(&format!("manufacturer = {}\n", quoted(&m.manufacturer)));
    out.push_str(&format!("name = {}\n", quoted(&m.name)));
    out.push_str(&format!("version = {}\n", quoted(&m.version)));
    out.push_str(&format!(
        "signature_algorithm = {}\n",
        quoted(&m.signature_algorithm)
    ));
    if let Some(id) = &m.signing_key_id {
        out.push_str(&format!("signing_key_id = {}\n", quoted(id)));
    }
    out.push_str("[binary]\n");
    out.push_str(&format!("path = {}\n", quoted(&m.binary.path)));
    out.push_str(&format!("target = {}\n", quoted(&m.binary.target)));
    out.push_str(&format!("hash = {}\n", quoted(&m.binary.hash)));
    if let Some(size) = m.binary.size {
        out.push_str(&format!("size = {size}\n"));
    }
    for r in &m.resources {
        out.push_str(&format!(
            "[[resources]]\npath = {}\nhash = {}\n",
            quoted(&r.path),
            quoted(&r.hash)
        ));
    }
    for p in &m.proto_files {
        out.push_str(&format!(
            "[[proto_files]]\nname = {}\npath = {}\nhash = {}\n",
            quoted(&p.name),
            quoted(&p.path),
            quoted(&p.hash)
        ));
    }
    if let Some(l) = &m.lock_file {
        out.push_str(&format!(
            "[lock_file]\npath = {}\nhash = {}\n",
            quoted(&l.path),
            quoted(&l.hash)
        ));
    }
    out
}

fn text_of(table: &toml::Table, key: &str) -> Result<String, PackError> {
    match table.get(key).and_then(|v| v.as_str()) {
        Some(t) => Ok(t.to_string()),
        None => Err(PackError::ManifestParseError(format!(
            "missing field `{key}`"
        ))),
    }
}

fn tables(table: &toml::Table, key: &str) -> Vec<toml::Table> {
    match table.get(key).and_then(|v| v.as_array()) {
        Some(list) => list.iter().filter_map(|v| v.as_table().cloned()).collect(),
        None => Vec::new(),
    }
}

fn parse_manifest(text: &str) -> Result<PackageManifest, PackError> {
    let table: toml::Table = text
        .parse()
        .map_err(|e: toml::de::Error| PackError::ManifestParseError(e.to_string()))?;
    let binary = match table.get("binary").and_then(|v| v.as_table()) {
        Some(b) => b.clone(),
        None => {
            return Err(PackError::ManifestParseError(
                "missing field `binary`".to_string(),
            ))
        }
    };
    let mut resources = Vec::new();
    for r in tables(&table, "resources") {
        resources.push(ResourceEntry {
            path: text_of(&r, "path")?,
            hash: text_of(&r, "hash")?,
        });
    }
    let mut proto_files = Vec::new();
    for p in tables(&table, "proto_files") {
        proto_files.push(ProtoFileEntry {
            name: text_of(&p, "name")?,
            path: text_of(&p, "path")?,
            hash: text_of(&p, "hash")?,
        });
    }
    let lock_file = match table.get("lock_file").and_then(|v| v.as_table()) {
        Some(l) => Some(LockFileEntry {
            path: text_of(l, "path")?,
            hash: text_of(l, "hash")?,
        }),
        None => None,
    };
    Ok(PackageManifest {
        manufacturer: text_of(&table, "manufacturer")?,
        name: text_of(&table, "name")?,
        version: text_of(&table, "version")?,
        binary: BinaryEntry {
            path: text_of(&binary, "path")?,
            target: text_of(&binary, "target")?,
            hash: text_of(&binary, "hash")?,
            size: binary
                .get("size")
                .and_then(|v| v.as_integer())
                .map(|n| n as u64),
            kind: None,
        },
        signature_algorithm: text_of(&table, "signature_algorithm")?,
        signing_key_id: None,
        resources,
        proto_files,
        lock_file,
        metadata: ManifestMetadata::default(),
    })
}

// ── packing ──────────────────────────────────────────────────────────────────

struct PackOptions {
    manifest: PackageManifest,
    binary_bytes: Vec<u8>,
    resources: Vec<(String, Vec<u8>)>,
    proto_files: Vec<(String, Vec<u8>)>,
    signing_key: SigningKey,
    lock_file: Option<Vec<u8>>,
}

/// Build a package: hashes are filled in, the manifest is signed, and every
/// payload is stored uncompressed.
fn pack(opts: &PackOptions) -> Result<Vec<u8>, zip::result::ZipError> {
    let mut manifest = opts.manifest.clone();
    manifest.binary.hash = sha256_hex(&opts.binary_bytes);
    manifest.binary.size = Some(opts.binary_bytes.len() as u64);
    manifest.resources = opts
        .resources
        .iter()
        .map(|(path, bytes)| ResourceEntry {
            path: path.clone(),
            hash: sha256_hex(bytes),
        })
        .collect();
    manifest.proto_files = opts
        .proto_files
        .iter()
        .map(|(name, bytes)| ProtoFileEntry {
            name: name.clone(),
            path: format!("proto/{name}"),
            hash: sha256_hex(bytes),
        })
        .collect();
    manifest.lock_file = opts.lock_file.as_ref().map(|bytes| LockFileEntry {
        path: "manifest.lock.toml".to_string(),
        hash: sha256_hex(bytes),
    });
    let manifest_toml = to_toml(&manifest);
    let signature = opts.signing_key.sign(manifest_toml.as_bytes()).to_bytes();
    let mut zip = zip::ZipWriter::new(Cursor::new(Vec::new()));
    let options = zip::write::SimpleFileOptions::default()
        .compression_method(zip::CompressionMethod::Stored);
    zip.start_file("manifest.toml", options)?;
    zip.write_all(manifest_toml.as_bytes())?;
    zip.start_file("manifest.sig", options)?;
    zip.write_all(&signature)?;
    zip.start_file(&manifest.binary.path, options)?;
    zip.write_all(&opts.binary_bytes)?;
    for (path, bytes) in &opts.resources {
        zip.start_file(path, options)?;
        zip.write_all(bytes)?;
    }
    for (name, bytes) in &opts.proto_files {
        zip.start_file(format!("proto/{name}"), options)?;
        zip.write_all(bytes)?;
    }
    if let Some(bytes) = &opts.lock_file {
        zip.start_file("manifest.lock.toml", options)?;
        zip.write_all(bytes)?;
    }
    Ok(zip.finish()?.into_inner())
}

// ── reading ──────────────────────────────────────────────────────────────────

fn manifest_with_resources(resources: Vec<ResourceEntry>) -> PackageManifest {
    PackageManifest {
        manufacturer: "test".to_string(),
        name: "fixture".to_string(),
        version: "0.1.0".to_string(),
        binary: BinaryEntry {
            path: "bin/actor.wasm".to_string(),
            target: "wasm32-wasip2".to_string(),
            hash: "00".repeat(32),
            size: Some(4),
            kind: Some(BinaryKind::Component),
        },
        signature_algorithm: "ed25519".to_string(),
        signing_key_id: None,
        resources,
        proto_files: Vec::new(),
        lock_file: None,
        metadata: ManifestMetadata::default(),
    }
}

#[test]
fn read_manifest_rejects_deflated_oversized_entry() {
    let oversized_manifest = vec![b' '; MAX_MANIFEST_BYTES + 1];
    let cursor = Cursor::new(Vec::new());
    let mut zip = zip::ZipWriter::new(cursor);
    let options = zip::write::SimpleFileOptions::default()
        .compression_method(zip::CompressionMethod::Deflated);
    zip.start_file("manifest.toml", options).unwrap();
    zip.write_all(&oversized_manifest).unwrap();
    let package = zip.finish().unwrap().into_inner();
    assert!(
        package.len() < oversized_manifest.len() / 100,
        "fixture should be highly compressed"
    );

    let error = read_manifest(&package, parse_manifest).unwrap_err();
    assert!(
        matches!(&error, PackError::InvalidPackage(message) if
            message.contains("manifest.toml") && message.contains("exceeds limit")),
        "unexpected error: {error:?}"
    );
}

#[test]
fn read_lock_file_rejects_deflated_oversized_entry() {
    let oversized_lock = vec![b' '; 128 * 1024];
    let cursor = Cursor::new(Vec::new());
    let mut zip = zip::ZipWriter::new(cursor);
    let options = zip::write::SimpleFileOptions::default()
        .compression_method(zip::CompressionMethod::Deflated);
    zip.start_file("manifest.lock.toml", options).unwrap();
    zip.write_all(&oversized_lock).unwrap();
    let package = zip.finish().unwrap().into_inner();

    let error = read_lock_file_bounded(&package, "manifest.lock.toml", 1024).unwrap_err();
    assert!(
        matches!(&error, PackError::InvalidPackage(message) if
            message.contains("manifest.lock.toml") && message.contains("exceeds limit 1024")),
        "unexpected error: {error:?}"
    );
}

#[test]
fn load_binary_rejects_deflated_oversized_entry() {
    let manifest = to_toml(&manifest_with_resources(Vec::new()));
    let binary = vec![0u8; 128 * 1024];
    let cursor = Cursor::new(Vec::new());
    let mut zip = zip::ZipWriter::new(cursor);
    let options = zip::write::SimpleFileOptions::default()
        .compression_method(zip::CompressionMethod::Deflated);
    zip.start_file("manifest.toml", options).unwrap();
    zip.write_all(manifest.as_bytes()).unwrap();
    zip.start_file("bin/actor.wasm", options).unwrap();
    zip.write_all(&binary).unwrap();
    let package = zip.finish().unwrap().into_inner();

    let error = load_binary_bounded(&package, 1024, parse_manifest).unwrap_err();
    assert!(
        matches!(&error, PackError::InvalidPackage(message) if
            message.contains("bin/actor.wasm") && message.contains("exceeds limit 1024")),
        "unexpected error: {error:?}"
    );
}

#[test]
fn read_glue_js_ignores_unsigned_extra_zip_entry() {
    let manifest = to_toml(&manifest_with_resources(Vec::new()));
    let extra = vec![b'x'; 128 * 1024];
    let cursor = Cursor::new(Vec::new());
    let mut zip = zip::ZipWriter::new(cursor);
    let options = zip::write::SimpleFileOptions::default()
        .compression_method(zip::CompressionMethod::Deflated);
    zip.start_file("manifest.toml", options).unwrap();
    zip.write_all(manifest.as_bytes()).unwrap();
    zip.start_file("resources/unsigned.js", options).unwrap();
    zip.write_all(&extra).unwrap();
    let package = zip.finish().unwrap().into_inner();

    assert_eq!(read_glue_js(&package, parse_manifest).unwrap(), None);
}

#[test]
fn read_glue_js_bounds_declared_resource() {
    let path = "resources/glue.js";
    let manifest = manifest_with_resources(vec![ResourceEntry {
        path: path.to_string(),
        hash: "00".repeat(32),
    }]);
    let cursor = Cursor::new(Vec::new());
    let mut zip = zip::ZipWriter::new(cursor);
    let options = zip::write::SimpleFileOptions::default()
        .compression_method(zip::CompressionMethod::Deflated);
    zip.start_file(path, options).unwrap();
    zip.write_all(&vec![b'x'; 2048]).unwrap();
    let package = zip.finish().unwrap().into_inner();

    let error = read_glue_js_bounded(&package, &manifest, 1024).unwrap_err();
    assert!(
        matches!(&error, PackError::InvalidPackage(message) if
            message.contains(path) && message.contains("exceeds limit 1024")),
        "unexpected error: {error:?}"
    );
}

#[test]
fn read_lock_file_ignores_unsigned_extra_zip_entry() {
    let manifest = to_toml(&manifest_with_resources(Vec::new()));
    let cursor = Cursor::new(Vec::new());
    let mut zip = zip::ZipWriter::new(cursor);
    let options = zip::write::SimpleFileOptions::default();
    zip.start_file("manifest.toml", options).unwrap();
    zip.write_all(manifest.as_bytes()).unwrap();
    zip.start_file("manifest.lock.toml", options).unwrap();
    zip.write_all(b"unsigned = true").unwrap();
    let package = zip.finish().unwrap().into_inner();

    assert_eq!(read_lock_file(&package, parse_manifest).unwrap(), None);
}

#[test]
fn read_proto_files_ignores_unsigned_extra_zip_entry() {
    let manifest = to_toml(&manifest_with_resources(Vec::new()));
    let cursor = Cursor::new(Vec::new());
    let mut zip = zip::ZipWriter::new(cursor);
    let options = zip::write::SimpleFileOptions::default();
    zip.start_file("manifest.toml", options).unwrap();
    zip.write_all(manifest.as_bytes()).unwrap();
    zip.start_file("proto/unsigned.proto", options).unwrap();
    zip.write_all(b"syntax = \"proto3\";").unwrap();
    let package = zip.finish().unwrap().into_inner();

    assert!(read_proto_files(&package, parse_manifest).unwrap().is_empty());
}

#[test]
fn read_proto_files_bounds_cumulative_declared_payload() {
    let path = "proto/large.proto";
    let mut manifest = manifest_with_resources(Vec::new());
    manifest.proto_files = vec![ProtoFileEntry {
        name: "large.proto".to_string(),
        path: path.to_string(),
        hash: "00".repeat(32),
    }];
    let cursor = Cursor::new(Vec::new());
    let mut zip = zip::ZipWriter::new(cursor);
    let options = zip::write::SimpleFileOptions::default()
        .compression_method(zip::CompressionMethod::Deflated);
    zip.start_file(path, options).unwrap();
    zip.write_all(&vec![b'x'; 2048]).unwrap();
    let package = zip.finish().unwrap().into_inner();

    let error = read_proto_files_bounded(&package, &manifest, 1024).unwrap_err();
    assert!(
        matches!(&error, PackError::InvalidPackage(message) if
            message.contains(path) && message.contains("exceeds limit 1024")),
        "unexpected error: {error:?}"
    );
}

// ── verifying ────────────────────────────────────────────────────────────────

fn test_manifest() -> PackageManifest {
    PackageManifest {
        manufacturer: "test-mfr".to_string(),
        name: "TestActor".to_string(),
        version: "1.0.0".to_string(),
        binary: BinaryEntry {
            path: "bin/actor.wasm".to_string(),
            target: "wasm32-wasip1".to_string(),
            hash: String::new(),
            size: None,
            kind: None,
        },
        signature_algorithm: "ed25519".to_string(),
        signing_key_id: None,
        resources: vec![],
        proto_files: vec![],
        lock_file: None,
        metadata: ManifestMetadata::default(),
    }
}

fn make_package(
    signing_key: &SigningKey,
    binary: &[u8],
    resources: Vec<(String, Vec<u8>)>,
) -> Vec<u8> {
    let mut manifest = test_manifest();
    manifest.resources = resources
        .iter()
        .map(|(path, _)| ResourceEntry {
            path: path.clone(),
            hash: String::new(),
        })
        .collect();
    let opts = PackOptions {
        manifest,
        binary_bytes: binary.to_vec(),
        resources,
        proto_files: vec![],
        signing_key: signing_key.clone(),
        lock_file: None,
    };
    pack(&opts).unwrap()
}

fn make_deflated_package(
    signing_key: &SigningKey,
    binary: &[u8],
    resources: &[(String, Vec<u8>)],
) -> Vec<u8> {
    let mut manifest = test_manifest();
    manifest.binary.hash = sha256_hex(binary);
    manifest.binary.size = Some(binary.len() as u64);
    manifest.resources = resources
        .iter()
        .map(|(path, bytes)| ResourceEntry {
            path: path.clone(),
            hash: sha256_hex(bytes),
        })
        .collect();

    let manifest_toml = to_toml(&manifest);
    let signature = signing_key.sign(manifest_toml.as_bytes()).to_bytes();
    let cursor = Cursor::new(Vec::new());
    let mut zip = zip::ZipWriter::new(cursor);
    let options = zip::write::SimpleFileOptions::default()
        .compression_method(zip::CompressionMethod::Deflated);

    zip.start_file("manifest.toml", options).unwrap();
    zip.write_all(manifest_toml.as_bytes()).unwrap();
    zip.start_file("manifest.sig", options).unwrap();
    zip.write_all(&signature).unwrap();
    zip.start_file(&manifest.binary.path, options).unwrap();
    zip.write_all(binary).unwrap();
    for (path, bytes) in resources {
        zip.start_file(path, options).unwrap();
        zip.write_all(bytes).unwrap();
    }
    zip.finish().unwrap().into_inner()
}

#[test]
fn roundtrip_succeeds() {
    let key = SigningKey::from_bytes(&[11u8; 32]);
    let pkg = make_package(&key, b"wasm bytes", vec![]);
    let result = verify(&pkg, &key.verifying_key().to_bytes(), parse_manifest).unwrap();
    assert_eq!(result.manifest.manufacturer, "test-mfr");
    assert_eq!(result.manifest.name, "TestActor");
    assert_eq!(result.sig_raw.len(), 64);
    assert!(!result.manifest_raw.is_empty());
}

#[test]
fn tampered_binary_detected() {
    let key = SigningKey::from_bytes(&[12u8; 32]);
    let pkg_bytes = make_package(&key, b"original", vec![]);
    // Modify a byte deep in the file (in the binary data area)
    let mut tampered = pkg_bytes.clone();
    // Find "original" in the ZIP and change it
    if let Some(pos) = tampered.windows(8).position(|w| w == b"original") {
        tampered[pos] ^= 0xFF;
    }
    let result = verify(&tampered, &key.verifying_key().to_bytes(), parse_manifest);
    // Should fail with either signature or hash mismatch
    assert!(
        result.is_err(),
        "tampered package should fail: {:?}",
        result
    );
}

#[test]
fn wrong_key_rejected() {
    let key1 = SigningKey::from_bytes(&[13u8; 32]);
    let key2 = SigningKey::from_bytes(&[14u8; 32]);
    let pkg = make_package(&key1, b"wasm", vec![]);
    let result = verify(&pkg, &key2.verifying_key().to_bytes(), parse_manifest);
    assert!(matches!(
        result,
        Err(PackError::SignatureVerificationFailed(_))
    ));
}

#[test]
fn missing_signature_detected() {
    // Create a ZIP without manifest.sig
    let cursor = std::io::Cursor::new(Vec::new());
    let mut zip = zip::ZipWriter::new(cursor);
    let opts = zip::write::SimpleFileOptions::default()
        .compression_method(zip::CompressionMethod::Stored);
    zip.start_file("manifest.toml", opts).unwrap();
    zip.write_all(b"[fake]").unwrap();
    let data = zip.finish().unwrap().into_inner();

    let key = SigningKey::from_bytes(&[15u8; 32]);
    let result = verify(&data, &key.verifying_key().to_bytes(), parse_manifest);
    assert!(matches!(result, Err(PackError::SignatureNotFound)));
}

#[test]
fn resource_hash_mismatch_detected() {
    let key = SigningKey::from_bytes(&[16u8; 32]);
    let pkg = make_package(
        &key,
        b"wasm",
        vec![(
            "config/settings.toml".to_string(),
            b"key = \"value\"".to_vec(),
        )],
    );
    // Tamper the resource
    let mut tampered = pkg.clone();
    if let Some(pos) = tampered.windows(5).position(|w| w == b"value") {
        tampered[pos] ^= 0xFF;
    }
    let result = verify(&tampered, &key.verifying_key().to_bytes(), parse_manifest);
    assert!(result.is_err());
}

#[test]
fn with_resources_roundtrip() {
    let key = SigningKey::from_bytes(&[17u8; 32]);
    let resources = vec![
        ("config/a.toml".to_string(), b"data_a".to_vec()),
        ("config/b.toml".to_string(), b"data_b".to_vec()),
    ];
    let pkg = make_package(&key, b"wasm", resources);
    let result = verify(&pkg, &key.verifying_key().to_bytes(), parse_manifest).unwrap();
    assert_eq!(result.manifest.resources.len(), 2);
}

#[test]
fn bounded_verify_rejects_deflated_binary_bomb() {
    let key = SigningKey::from_bytes(&[18u8; 32]);
    let binary = vec![0u8; 128 * 1024];
    let pkg = make_deflated_package(&key, &binary, &[]);
    assert!(
        pkg.len() < binary.len() / 4,
        "fixture should be highly compressed"
    );

    let error = verify_bounded(&pkg, &key.verifying_key().to_bytes(), 1024, parse_manifest).unwrap_err();
    assert!(
        matches!(&error, PackError::InvalidPackage(message) if
            message.contains("bin/actor.wasm") && message.contains("exceeds limit 1024")),
        "unexpected error: {error:?}"
    );
}

#[test]
fn manifest_integrity_fields_are_strictly_validated() {
    let mut manifest = test_manifest();
    manifest.signature_algorithm = "rsa".to_string();
    let error = validate_manifest_integrity_fields(&manifest).unwrap_err();
    assert!(matches!(&error, PackError::ManifestParseError(message) if
        message.contains("signature_algorithm")));

    manifest.signature_algorithm = "ed25519".to_string();
    manifest.binary.hash = "00".repeat(32);
    manifest.resources = vec![ResourceEntry {
        path: "resources/a.bin".to_string(),
        hash: "not-a-sha256".to_string(),
    }];
    let error = validate_manifest_integrity_fields(&manifest).unwrap_err();
    assert!(matches!(&error, PackError::ManifestParseError(message) if
        message.contains("resources[].hash")));
}

#[test]
fn bounded_verify_rejects_deflated_resource_bomb() {
    let key = SigningKey::from_bytes(&[19u8; 32]);
    let resource = vec![0u8; 128 * 1024];
    let resources = vec![("resources/bomb.bin".to_string(), resource.clone())];
    let pkg = make_deflated_package(&key, b"wasm", &resources);
    assert!(
        pkg.len() < resource.len() / 4,
        "fixture should be highly compressed"
    );

    let error = verify_bounded(&pkg, &key.verifying_key().to_bytes(), 1024, parse_manifest).unwrap_err();
    assert!(
        matches!(&error, PackError::InvalidPackage(message) if
            message.contains("resources/bomb.bin") && message.contains("exceeds limit 1024")),
        "unexpected error: {error:?}"
    );
}

#[test]
fn bounded_verify_rejects_cumulative_payload_bomb() {
    let key = SigningKey::from_bytes(&[20u8; 32]);
    let resources = vec![("resources/second.bin".to_string(), vec![0u8; 700])];
    let pkg = make_deflated_package(&key, &[0u8; 700], &resources);

    let error = verify_bounded(&pkg, &key.verifying_key().to_bytes(), 1024, parse_manifest).unwrap_err();
    assert!(
        matches!(&error, PackError::InvalidPackage(message) if
            message.contains("cumulative bytes") && message.contains("exceeds limit 1024")),
        "unexpected error: {error:?}"
    );
}

#[test]
fn verify_with_limits_rejects_excessive_payload_entry_count() {
    let key = SigningKey::from_bytes(&[21u8; 32]);
    let resources = vec![
        ("resources/a.bin".to_string(), b"a".to_vec()),
        ("resources/b.bin".to_string(), b"b".to_vec()),
    ];
    let pkg = make_deflated_package(&key, b"wasm", &resources);
    let limits = PackageVerificationLimits {
        max_entry_bytes: 1024,
        max_total_bytes: 1024,
        max_entries: 2,
    };

    let error = verify_with_limits(&pkg, &key.verifying_key().to_bytes(), limits, parse_manifest).unwrap_err();
    assert!(
        matches!(&error, PackError::InvalidPackage(message) if
            message.contains("3 entries") && message.contains("exceeds limit 2")),
        "unexpected error: {error:?}"
    );
}

#[test]
fn verify_rejects_deflated_oversized_signature() {
    let cursor = Cursor::new(Vec::new());
    let mut zip = zip::ZipWriter::new(cursor);
    let options = zip::write::SimpleFileOptions::default()
        .compression_method(zip::CompressionMethod::Deflated);
    zip.start_file("manifest.sig", options).unwrap();
    zip.write_all(&vec![0u8; 128 * 1024]).unwrap();
    let pkg = zip.finish().unwrap().into_inner();

    let key = SigningKey::from_bytes(&[22u8; 32]);
    let error = verify(&pkg, &key.verifying_key().to_bytes(), parse_manifest).unwrap_err();
    assert!(
        matches!(&error, PackError::InvalidPackage(message) if
            message.contains("manifest.sig") && message.contains("exceeds limit 64")),
        "unexpected error: {error:?}"
    );
}

fn make_package_with_protos(
    signing_key: &SigningKey,
    binary: &[u8],
    protos: Vec<(String, Vec<u8>)>,
) -> Vec<u8> {
    let manifest = test_manifest();
    let proto_entries: Vec<ProtoFileEntry> = protos
        .iter()
        .map(|(name, _)| ProtoFileEntry {
            name: name.clone(),
            path: format!("proto/{name}"),
            hash: String::new(),
        })
        .collect();
    let mut m = manifest;
    m.proto_files = proto_entries;
    let opts = PackOptions {
        manifest: m,
        binary_bytes: binary.to_vec(),
        resources: vec![],
        proto_files: protos,
        signing_key: signing_key.clone(),
        lock_file: None,
    };
    pack(&opts).unwrap()
}

#[test]
fn with_proto_files_roundtrip() {
    let key = SigningKey::from_bytes(&[23u8; 32]);
    let protos = vec![
        (
            "echo.proto".to_string(),
            b"syntax = \"proto3\";\nservice Echo {}".to_vec(),
        ),
        (
            "common.proto".to_string(),
            b"syntax = \"proto3\";\nmessage Empty {}".to_vec(),
        ),
    ];
    let pkg = make_package_with_protos(&key, b"wasm", protos);
    let result = verify(&pkg, &key.verifying_key().to_bytes(), parse_manifest).unwrap();
    assert_eq!(result.manifest.proto_files.len(), 2);
    assert_eq!(result.manifest.proto_files[0].name, "echo.proto");
    assert_eq!(result.manifest.proto_files[1].name, "common.proto");
}

#[test]
fn tampered_proto_detected() {
    let key = SigningKey::from_bytes(&[24u8; 32]);
    let protos = vec![(
        "echo.proto".to_string(),
        b"syntax = \"proto3\";\nservice Echo {}".to_vec(),
    )];
    let pkg = make_package_with_protos(&key, b"wasm", protos);
    // Tamper the proto content in the ZIP
    let mut tampered = pkg.clone();
    let needle = b"Echo";
    if let Some(pos) = tampered.windows(needle.len()).position(|w| w == needle) {
        tampered[pos] ^= 0xFF;
    }
    let result = verify(&tampered, &key.verifying_key().to_bytes(), parse_manifest);
    assert!(result.is_err(), "tampered proto should fail: {:?}", result);
}

// ── laws and error variants on concrete values ───────────────────────────────

fn full_package(key: &SigningKey) -> Vec<u8> {
    pack(&PackOptions {
        manifest: test_manifest(),
        binary_bytes: b"component bytes".to_vec(),
        resources: vec![("resources/glue.js".to_string(), b"export {}".to_vec())],
        proto_files: vec![("echo.proto".to_string(), b"service Echo {}".to_vec())],
        signing_key: key.clone(),
        lock_file: Some(b"locked = true".to_vec()),
    })
    .unwrap()
}

#[test]
fn sha256_of_known_texts() {
    assert_eq!(
        sha256_hex(b""),
        "e3b0c44298fc1c149afbf4c8996fb92427ae41e4649b934ca495991b7852b855"
    );
    assert_eq!(
        sha256_hex(b"abc"),
        "ba7816bf8f01cfea414140de5dae2223b00361a396177a9cb410ff61f20015ad"
    );
}

#[test]
fn sha256_texts_are_recognised() {
    assert!(is_sha256_hex(&"0f".repeat(32)));
    assert!(!is_sha256_hex(&"0f".repeat(31)));
    assert!(!is_sha256_hex(&"0g".repeat(32)));
    assert!(!is_sha256_hex(&"é".repeat(32)));
}

#[test]
fn every_declared_payload_can_be_read_back() {
    let key = SigningKey::from_bytes(&[3u8; 32]);
    let pkg = full_package(&key);
    let verified = verify(&pkg, &key.verifying_key().to_bytes(), parse_manifest).unwrap();
    assert_eq!(verified.manifest_raw, read_manifest_raw(&pkg).unwrap().into_bytes());
    assert_eq!(read_signature(&pkg).unwrap(), verified.sig_raw);
    let manifest = read_manifest(&pkg, parse_manifest).unwrap();
    assert_eq!(manifest.binary.hash, sha256_hex(b"component bytes"));
    assert_eq!(
        load_binary(&pkg, parse_manifest).unwrap(),
        b"component bytes".to_vec()
    );
    assert_eq!(
        read_glue_js(&pkg, parse_manifest).unwrap(),
        Some("export {}".to_string())
    );
    assert_eq!(
        read_lock_file(&pkg, parse_manifest).unwrap(),
        Some(b"locked = true".to_vec())
    );
    assert_eq!(
        read_proto_files(&pkg, parse_manifest).unwrap(),
        vec![("echo.proto".to_string(), b"service Echo {}".to_vec())]
    );
}

#[test]
fn bytes_that_are_no_archive_are_a_zip_fault() {
    let key = SigningKey::from_bytes(&[4u8; 32]);
    let error = verify(b"no archive", &key.verifying_key().to_bytes(), parse_manifest).unwrap_err();
    assert!(matches!(error, PackError::ZipError(ZipFault::Other(_))));
    assert!(matches!(
        read_manifest_raw(b"no archive").unwrap_err(),
        PackError::ZipError(_)
    ));
}

#[test]
fn missing_entries_are_named() {
    let mut zip = zip::ZipWriter::new(Cursor::new(Vec::new()));
    let options = zip::write::SimpleFileOptions::default();
    zip.start_file("unrelated.txt", options).unwrap();
    zip.write_all(b"x").unwrap();
    let package = zip.finish().unwrap().into_inner();
    assert!(matches!(
        read_manifest_raw(&package).unwrap_err(),
        PackError::ManifestNotFound
    ));
    assert!(matches!(
        read_signature(&package).unwrap_err(),
        PackError::SignatureNotFound
    ));

    let mut zip = zip::ZipWriter::new(Cursor::new(Vec::new()));
    let manifest = to_toml(&manifest_with_resources(Vec::new()));
    zip.start_file("manifest.toml", options).unwrap();
    zip.write_all(manifest.as_bytes()).unwrap();
    let package = zip.finish().unwrap().into_inner();
    assert!(matches!(
        load_binary(&package, parse_manifest).unwrap_err(),
        PackError::BinaryNotFound(path) if path == "bin/actor.wasm"
    ));
}

#[test]
fn exact_budget_is_enough_and_one_byte_less_is_not() {
    let key = SigningKey::from_bytes(&[5u8; 32]);
    let pkg = full_package(&key);
    let pubkey = key.verifying_key().to_bytes();
    let total = b"component bytes".len()
        + b"export {}".len()
        + b"service Echo {}".len()
        + b"locked = true".len();
    let limits = PackageVerificationLimits {
        max_entry_bytes: b"component bytes".len(),
        max_total_bytes: total,
        max_entries: 4,
    };
    assert!(verify_with_limits(&pkg, &pubkey, limits, parse_manifest).is_ok());
    let short = PackageVerificationLimits {
        max_total_bytes: total - 1,
        ..limits
    };
    assert!(matches!(
        verify_with_limits(&pkg, &pubkey, short, parse_manifest).unwrap_err(),
        PackError::InvalidPackage(message) if message.contains("cumulative bytes")
    ));
    let few = PackageVerificationLimits {
        max_entries: 3,
        ..limits
    };
    assert!(matches!(
        verify_with_limits(&pkg, &pubkey, few, parse_manifest).unwrap_err(),
        PackError::InvalidPackage(message) if message.contains("4 entries")
    ));
}

#[test]
fn limits_for_a_component_bound_entry_and_total_alike() {
    let limits = PackageVerificationLimits::from_max_component_bytes(4096);
    assert_eq!(limits.max_entry_bytes, 4096);
    assert_eq!(limits.max_total_bytes, 4096);
}

#[test]
fn a_resigned_manifest_with_another_hash_is_rejected() {
    // The signature is right; the payload is not what the manifest declares.
    let key = SigningKey::from_bytes(&[6u8; 32]);
    let mut manifest = test_manifest();
    manifest.binary.hash = sha256_hex(b"something else");
    let text = to_toml(&manifest);
    let signature = key.sign(text.as_bytes()).to_bytes();
    let mut zip = zip::ZipWriter::new(Cursor::new(Vec::new()));
    let options = zip::write::SimpleFileOptions::default();
    zip.start_file("manifest.toml", options).unwrap();
    zip.write_all(text.as_bytes()).unwrap();
    zip.start_file("manifest.sig", options).unwrap();
    zip.write_all(&signature).unwrap();
    zip.start_file("bin/actor.wasm", options).unwrap();
    zip.write_all(b"component bytes").unwrap();
    let package = zip.finish().unwrap().into_inner();
    let error = verify(&package, &key.verifying_key().to_bytes(), parse_manifest).unwrap_err();
    assert!(
        matches!(&error, PackError::BinaryHashMismatch { .. }),
        "unexpected error: {error:?}"
    );
}

#[test]
fn glue_that_is_not_utf8_is_refused() {
    let key = SigningKey::from_bytes(&[7u8; 32]);
    let pkg = pack(&PackOptions {
        manifest: test_manifest(),
        binary_bytes: b"wasm".to_vec(),
        resources: vec![("resources/glue.js".to_string(), vec![0xff, 0xfe])],
        proto_files: vec![],
        signing_key: key.clone(),
        lock_file: None,
    })
    .unwrap();
    assert!(matches!(
        read_glue_js(&pkg, parse_manifest).unwrap_err(),
        PackError::InvalidPackage(message) if message.contains("UTF-8")
    ));
}

#[test]
fn payloads_are_checked_against_a_given_manifest() {
    let key = SigningKey::from_bytes(&[41u8; 32]);
    let limits = PackageVerificationLimits::default();
    let pkg = make_package(&key, b"wasm bytes", vec![]);
    let mut manifest = read_manifest(&pkg, parse_manifest).unwrap();
    assert!(verify_payloads(&pkg, &manifest, limits).is_ok());
    manifest.binary.hash = sha256_hex(b"other bytes");
    assert!(matches!(
        verify_payloads(&pkg, &manifest, limits),
        Err(PackError::BinaryHashMismatch { .. })
    ));
    assert!(matches!(
        verify_payloads(b"not an archive", &manifest, limits),
        Err(PackError::ZipError(_))
    ));
}

#[test]
fn load_summaries_carry_the_backend_and_the_manifest() {
    let key = SigningKey::from_bytes(&[42u8; 32]);
    let pkg = make_package(&key, b"wasm bytes", vec![]);
    let load = |key: &SigningKey| {
        let verified = verify(&pkg, &key.verifying_key().to_bytes(), parse_manifest)?;
        Ok::<_, PackError>((BinaryKind::Component, verified))
    };
    let summary = inspect_workload_package(load(&key)).unwrap();
    assert_eq!(summary.binary_kind, BinaryKind::Component);
    assert_eq!(summary.manifest().name, "TestActor");
    let other = SigningKey::from_bytes(&[43u8; 32]);
    assert!(matches!(
        inspect_workload_package(load(&other)),
        Err(PackError::SignatureVerificationFailed(_))
    ));
}

fn package_with_resources(key: &SigningKey, resources: &[(&str, &[u8])]) -> Vec<u8> {
    pack(&PackOptions {
        manifest: test_manifest(),
        binary_bytes: b"wasm".to_vec(),
        resources: resources
            .iter()
            .map(|(path, bytes)| (path.to_string(), bytes.to_vec()))
            .collect(),
        proto_files: vec![],
        signing_key: key.clone(),
        lock_file: None,
    })
    .unwrap()
}

#[test]
fn only_a_file_named_like_the_service_worker_is_passed_over() {
    let key = SigningKey::from_bytes(&[44u8; 32]);
    let pkg = package_with_resources(&key, &[("resources/my-actor.sw.js", b"export let a;")]);
    assert_eq!(
        read_glue_js(&pkg, parse_manifest).unwrap().as_deref(),
        Some("export let a;")
    );
    let pkg = package_with_resources(&key, &[("resources/actor.sw.js", b"worker")]);
    assert_eq!(read_glue_js(&pkg, parse_manifest).unwrap(), None);
    let pkg = package_with_resources(
        &key,
        &[
            ("resources/web/actor.sw.js", b"worker"),
            ("resources/web/glue.js", b"glue"),
        ],
    );
    assert_eq!(
        read_glue_js(&pkg, parse_manifest).unwrap().as_deref(),
        Some("glue")
    );
}

#[test]
fn raised_limits_keep_a_verified_package() {
    let key = SigningKey::from_bytes(&[45u8; 32]);
    let pubkey = key.verifying_key().to_bytes();
    // Larger than any buffer that streaming holds.
    let binary: Vec<u8> = (0..100_000u32).map(|i| (i % 251) as u8).collect();
    let pkg = make_package(&key, &binary, vec![]);
    let exact = PackageVerificationLimits {
        max_entry_bytes: binary.len(),
        max_total_bytes: binary.len(),
        max_entries: 1,
    };
    let first = verify_with_limits(&pkg, &pubkey, exact, parse_manifest).unwrap();
    for more in [1, 1_000_000] {
        let raised = PackageVerificationLimits {
            max_entry_bytes: binary.len() + more,
            max_total_bytes: binary.len() + more,
            max_entries: 1 + more,
        };
        let again = verify_with_limits(&pkg, &pubkey, raised, parse_manifest).unwrap();
        assert_eq!(again.manifest, first.manifest);
        assert_eq!(again.manifest_raw, first.manifest_raw);
        assert_eq!(again.sig_raw, first.sig_raw);
        assert_eq!(
            load_binary_bounded(&pkg, binary.len() + more, parse_manifest).unwrap(),
            binary
        );
    }
    assert_eq!(
        load_binary_bounded(&pkg, binary.len(), parse_manifest).unwrap(),
        binary
    );
}

#[test]
fn damaged_payloads_are_read_faults() {
    let key = SigningKey::from_bytes(&[46u8; 32]);
    let mut pkg = make_package(&key, b"damage me here", vec![]);
    let at = pkg.windows(14).position(|w| w == b"damage me here").unwrap();
    pkg[at] ^= 1;
    assert!(matches!(
        verify(&pkg, &key.verifying_key().to_bytes(), parse_manifest),
        Err(PackError::IoError(_))
    ));
    assert!(matches!(
        load_binary(&pkg, parse_manifest),
        Err(PackError::IoError(_))
    ));
}

#[test]
fn bytes_that_are_no_public_key_verify_nothing() {
    let key = SigningKey::from_bytes(&[47u8; 32]);
    let pkg = make_package(&key, b"wasm", vec![]);
    let bad = (0..=255u8)
        .map(|b| [b; 32])
        .find(|bytes| ed25519_dalek::VerifyingKey::from_bytes(bytes).is_err())
        .unwrap();
    let reason = ed25519_dalek::VerifyingKey::from_bytes(&bad)
        .unwrap_err()
        .to_string();
    assert!(matches!(
        verify(&pkg, &bad, parse_manifest),
        Err(PackError::SignatureVerificationFailed(t))
            if t == format!("Ed25519 verification failed: {reason}")
    ));
}
