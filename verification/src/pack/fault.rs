//! What can be wrong with a package.
use vstd::prelude::*;

verus! {

/// Why the ZIP layer refused.
#[derive(Debug, Clone, PartialEq, Eq)]
pub enum ZipFault {
    /// The archive has no entry of that name.
    FileNotFound,
    /// Any other fault, by its printed form.
    Other(String),
}

/// Contents of a [`ZipFault`].
pub enum ZipFaultView {
    FileNotFound,
    Other(Seq<char>),
}

impl View for ZipFault {
    type V = ZipFaultView;

    open spec fn view(&self) -> ZipFaultView {
        match *self {
            ZipFault::FileNotFound => ZipFaultView::FileNotFound,
            ZipFault::Other(t) => ZipFaultView::Other(t@),
        }
    }
}

/// Errors from reading or verifying a package.
#[derive(Debug, Clone, PartialEq, Eq)]
pub enum PackError {
    /// The package has no `manifest.sig`.
    SignatureNotFound,
    /// The signature is malformed or does not match the manifest.
    SignatureVerificationFailed(String),
    /// The package has no `manifest.toml`.
    ManifestNotFound,
    /// The manifest cannot be understood.
    ManifestParseError(String),
    /// A payload that the manifest names is missing.
    BinaryNotFound(String),
    /// The binary's digest differs from the manifest's.
    BinaryHashMismatch { path: String },
    /// A resource's digest differs from the manifest's.
    ResourceHashMismatch { path: String },
    /// A proto file's digest differs from the manifest's.
    ProtoHashMismatch { path: String },
    /// The lock file's digest differs from the manifest's.
    LockFileHashMismatch { path: String },
    /// The package breaks a limit or a rule.
    InvalidPackage(String),
    /// The ZIP layer refused.
    ZipError(ZipFault),
    /// An entry could not be read.
    IoError(String),
}

/// Contents of a [`PackError`].
pub enum PackErrorView {
    SignatureNotFound,
    SignatureVerificationFailed(Seq<char>),
    ManifestNotFound,
    ManifestParseError(Seq<char>),
    BinaryNotFound(Seq<char>),
    BinaryHashMismatch { path: Seq<char> },
    ResourceHashMismatch { path: Seq<char> },
    ProtoHashMismatch { path: Seq<char> },
    LockFileHashMismatch { path: Seq<char> },
    InvalidPackage(Seq<char>),
    ZipError(ZipFaultView),
    IoError(Seq<char>),
}

impl View for PackError {
    type V = PackErrorView;

    open spec fn view(&self) -> PackErrorView {
        match *self {
            PackError::SignatureNotFound => PackErrorView::SignatureNotFound,
            PackError::SignatureVerificationFailed(
                t,
            ) => PackErrorView::SignatureVerificationFailed(t@),
            PackError::ManifestNotFound => PackErrorView::ManifestNotFound,
            PackError::ManifestParseError(t) => PackErrorView::ManifestParseError(t@),
            PackError::BinaryNotFound(t) => PackErrorView::BinaryNotFound(t@),
            PackError::BinaryHashMismatch { path } => PackErrorView::BinaryHashMismatch {
                path: path@,
            },
            PackError::ResourceHashMismatch { path } => PackErrorView::ResourceHashMismatch {
                path: path@,
            },
            PackError::ProtoHashMismatch { path } => PackErrorView::ProtoHashMismatch {
                path: path@,
            },
            PackError::LockFileHashMismatch { path } => PackErrorView::LockFileHashMismatch {
                path: path@,
            },
            PackError::InvalidPackage(t) => PackErrorView::InvalidPackage(t@),
            PackError::ZipError(f) => PackErrorView::ZipError(f@),
            PackError::IoError(t) => PackErrorView::IoError(t@),
        }
    }
}

/// What a missing entry stands for: an absent entry becomes `missing`, any
/// other error stays.
pub open spec fn required_entry_view(
    error: PackErrorView,
    missing: PackErrorView,
) -> PackErrorView {
    if error == PackErrorView::ZipError(ZipFaultView::FileNotFound) {
        missing
    } else {
        error
    }
}

/// Replace "no such entry" by the error that the entry's absence means.
pub fn required_entry(error: PackError, missing: PackError) -> (r: PackError)
    ensures
        r@ == required_entry_view(error@, missing@),
{
    match error {
        PackError::ZipError(ZipFault::FileNotFound) => missing,
        other => other,
    }
}

/// Only the absence of an entry is reported as what that absence means; every other error
/// stays what it is.
pub proof fn only_absence_means_missing(error: PackErrorView, missing: PackErrorView)
    ensures
        required_entry_view(PackErrorView::ZipError(ZipFaultView::FileNotFound), missing)
            == missing,
        error != PackErrorView::ZipError(ZipFaultView::FileNotFound) ==> required_entry_view(
            error,
            missing,
        ) == error,
{
}

} // verus!
