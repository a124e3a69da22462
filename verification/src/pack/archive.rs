//! Bounded access to the entries of a ZIP archive held in memory, and SHA-256
//! digests of them.
use crate::pack::fault::{PackError, PackErrorView, ZipFault, ZipFaultView};
use crate::text;
use crate::text::{cat3, cat5, decimal};
use sha2::Digest;
use std::io::{Cursor, Read};
use vstd::prelude::*;

verus! {

/// `std::io::Cursor`: a reader over a buffer.
#[verifier::external_type_specification]
#[verifier::external_body]
#[verifier::reject_recursive_types(T)]
pub struct ExCursor<T>(std::io::Cursor<T>);

/// `zip::ZipArchive`: an opened archive.
#[verifier::external_type_specification]
#[verifier::external_body]
#[verifier::reject_recursive_types(R)]
pub struct ExZipArchive<R>(zip::ZipArchive<R>);

/// The bytes that an archive was opened on.
pub uninterp spec fn archive_bytes(archive: zip::ZipArchive<std::io::Cursor<Vec<u8>>>) -> Seq<u8>;

/// What `ZipArchive::new` makes of some bytes: the fault it reports, or `None`
/// where it opens them.
pub uninterp spec fn zip_open_fault(bytes: Seq<u8>) -> Option<ZipFaultView>;

/// What `ZipArchive::by_name` finds in an archive over some bytes: the entry's
/// declared uncompressed size, or the fault it reports.
pub uninterp spec fn zip_entry_size(bytes: Seq<u8>, name: Seq<char>) -> Result<u64, ZipFaultView>;

/// Why an entry could not be read: the lookup failed, or reading did.
pub enum ReadFault {
    Zip(ZipFaultView),
    Io(Seq<char>),
}

/// An entry's whole uncompressed contents, where it reads to its end without a
/// fault; `None` where it is missing, damaged or longer than it declares.
pub uninterp spec fn zip_entry_content(bytes: Seq<u8>, name: Seq<char>) -> Option<Seq<u8>>;

/// How reading up to `limit` bytes of an entry into memory fails, where the entry
/// does not read to its end; `None` where that many bytes come out of it first.
pub uninterp spec fn zip_read_fault(bytes: Seq<u8>, name: Seq<char>, limit: u64) -> Option<
    ReadFault,
>;

/// How streaming up to `limit` bytes of an entry fails, where the entry does not
/// read to its end; `None` where that many bytes come out of it first.
pub uninterp spec fn zip_stream_fault(bytes: Seq<u8>, name: Seq<char>, limit: u64) -> Option<
    ReadFault,
>;

/// The first `limit` bytes of some contents, or all of them.
pub open spec fn cut(content: Seq<u8>, limit: u64) -> Seq<u8> {
    if content.len() <= limit {
        content
    } else {
        content.take(limit as int)
    }
}

/// The error for a fault.
pub open spec fn read_error(fault: ReadFault) -> PackErrorView {
    match fault {
        ReadFault::Zip(fault) => PackErrorView::ZipError(fault),
        ReadFault::Io(text) => PackErrorView::IoError(text),
    }
}

/// Calls `zip::ZipArchive::new` on a cursor over a copy of `bytes`. Whether
/// that succeeds, and the fault where it does not, depends on the bytes alone.
#[verifier::external_body]
pub(crate) fn open_archive(bytes: &[u8]) -> (r: Result<
    zip::ZipArchive<Cursor<Vec<u8>>>,
    ZipFault,
>)
    ensures
        match r {
            Ok(archive) => archive_bytes(archive) == bytes@ && zip_open_fault(bytes@) is None,
            Err(fault) => zip_open_fault(bytes@) == Some(fault@),
        },
{
    zip::ZipArchive::new(Cursor::new(bytes.to_vec())).map_err(
        |e| match e {
            zip::result::ZipError::FileNotFound => ZipFault::FileNotFound,
            other => ZipFault::Other(other.to_string()),
        },
    )
}

/// Calls `ZipArchive::by_name` and takes the entry's declared uncompressed
/// size. What comes back depends on the archive's bytes and the name alone, and
/// the archive still stands for the same bytes.
#[verifier::external_body]
pub(crate) fn entry_size(
    archive: &mut zip::ZipArchive<Cursor<Vec<u8>>>,
    name: &str,
) -> (r: Result<u64, ZipFault>)
    ensures
        archive_bytes(*final(archive)) == archive_bytes(*old(archive)),
        match r {
            Ok(size) => zip_entry_size(archive_bytes(*old(archive)), name@) == Ok::<
                u64,
                ZipFaultView,
            >(size),
            Err(fault) => zip_entry_size(archive_bytes(*old(archive)), name@) == Err::<
                u64,
                ZipFaultView,
            >(fault@),
        },
{
    archive.by_name(name).map(|entry| entry.size()).map_err(
        |e| match e {
            zip::result::ZipError::FileNotFound => ZipFault::FileNotFound,
            other => ZipFault::Other(other.to_string()),
        },
    )
}

/// Calls `ZipArchive::by_name` and reads the entry to its end, or up to `limit`
/// bytes. An entry that reads to its end gives its contents, cut at the limit;
/// any other gives exactly `limit` bytes or a fault, which depends on the
/// archive's bytes, the name and the limit alone. The archive still stands for
/// the same bytes.
#[verifier::external_body]
pub(crate) fn entry_prefix(
    archive: &mut zip::ZipArchive<Cursor<Vec<u8>>>,
    name: &str,
    limit: u64,
) -> (r: Result<Vec<u8>, PackError>)
    ensures
        archive_bytes(*final(archive)) == archive_bytes(*old(archive)),
        match zip_entry_content(archive_bytes(*old(archive)), name@) {
            Some(content) => r matches Ok(c) && c@ == cut(content, limit),
            None => match zip_read_fault(archive_bytes(*old(archive)), name@, limit) {
                Some(fault) => r matches Err(e) && e@ == read_error(fault),
                None => r matches Ok(c) && c@.len() == limit,
            },
        },
{
    let entry = archive.by_name(name).map_err(
        |e| match e {
            zip::result::ZipError::FileNotFound => PackError::ZipError(ZipFault::FileNotFound),
            other => PackError::ZipError(ZipFault::Other(other.to_string())),
        },
    )?;
    let mut content = Vec::new();
    entry.take(limit).read_to_end(&mut content).map_err(|e| PackError::IoError(e.to_string()))?;
    Ok(content)
}

/// The SHA-256 digest of some bytes.
pub uninterp spec fn sha256(data: Seq<u8>) -> Seq<u8>;

/// Calls `sha2::Sha256::digest`: the 32-byte SHA-256 digest of `data`.
#[verifier::external_body]
fn sha256_digest(data: &[u8]) -> (r: Vec<u8>)
    ensures
        r@ == sha256(data@),
        r@.len() == 32,
{
    sha2::Sha256::digest(data).to_vec()
}

/// Calls `ZipArchive::by_name` and streams the entry to its end, or up to `limit`
/// bytes, into a `sha2::Sha256` by `std::io::copy`, which holds one fixed buffer
/// at a time. An entry that reads to its end gives the digest and the length of
/// its contents, cut at the limit; any other gives exactly `limit` bytes or a
/// fault, which depends on the archive's bytes, the name and the limit alone.
/// The digest of an entry that does not read to its end is left open. The archive
/// still stands for the same bytes.
#[verifier::external_body]
fn entry_digest(
    archive: &mut zip::ZipArchive<Cursor<Vec<u8>>>,
    name: &str,
    limit: u64,
) -> (r: Result<(Vec<u8>, u64), PackError>)
    ensures
        archive_bytes(*final(archive)) == archive_bytes(*old(archive)),
        match zip_entry_content(archive_bytes(*old(archive)), name@) {
            Some(content) => r matches Ok((digest, n)) && digest@ == sha256(cut(content, limit))
                && n == cut(content, limit).len(),
            None => match zip_stream_fault(archive_bytes(*old(archive)), name@, limit) {
                Some(fault) => r matches Err(e) && e@ == read_error(fault),
                None => r matches Ok((_, n)) && n == limit,
            },
        },
{
    let entry = archive.by_name(name).map_err(
        |e| match e {
            zip::result::ZipError::FileNotFound => PackError::ZipError(ZipFault::FileNotFound),
            other => PackError::ZipError(ZipFault::Other(other.to_string())),
        },
    )?;
    let mut hasher = sha2::Sha256::new();
    let n = std::io::copy(&mut entry.take(limit), &mut hasher).map_err(
        |e| PackError::IoError(e.to_string()),
    )?;
    Ok((hasher.finalize().to_vec(), n))
}

/// Two lower-case hexadecimal digits per byte, most significant first.
pub open spec fn hex_text(data: Seq<u8>) -> Seq<char> {
    Seq::new(
        2 * data.len(),
        |i: int|
            if i % 2 == 0 {
                text::digit_char((data[i / 2] / 16) as nat)
            } else {
                text::digit_char((data[i / 2] % 16) as nat)
            },
    )
}

/// Calls `hex::encode`, which writes each byte as two lower-case hexadecimal
/// digits.
#[verifier::external_body]
fn hex_encode(data: &[u8]) -> (r: String)
    ensures
        r@ == hex_text(data@),
{
    hex::encode(data)
}

/// Compute a lowercase hex-encoded SHA-256 digest of `data`.
pub fn sha256_hex(data: &[u8]) -> (r: String)
    ensures
        r@ == hex_text(sha256(data@)),
{
    let digest: Vec<u8> = sha256_digest(data);
    hex_encode(digest.as_slice())
}

/// The message for an entry that declares more than the limit.
pub open spec fn declares_too_much(name: Seq<char>, size: nat, limit: nat) -> Seq<char> {
    "ZIP entry `"@ + name + "` declares "@ + text::decimal_text(size) + " bytes, exceeds limit "@
        + text::decimal_text(limit)
}

/// The message for an entry whose contents go beyond the limit.
pub open spec fn holds_too_much(name: Seq<char>, limit: nat) -> Seq<char> {
    "ZIP entry `"@ + name + "` exceeds decompressed limit "@ + text::decimal_text(limit)
}

/// How many bytes are asked of an entry that may hold `max_bytes`: one more, so
/// that a longer entry shows.
pub open spec fn read_limit(max_bytes: usize) -> u64 {
    if max_bytes < u64::MAX {
        (max_bytes + 1) as u64
    } else {
        u64::MAX
    }
}

/// One entry's contents under a limit: refused where the lookup fails, where the
/// declared size or the actual size exceeds the limit, or where reading fails,
/// which `fault` tells of an entry that does not read to its end.
pub open spec fn entry_within(
    bytes: Seq<u8>,
    name: Seq<char>,
    max_bytes: usize,
    fault: Option<ReadFault>,
) -> Result<Seq<u8>, PackErrorView> {
    match zip_entry_size(bytes, name) {
        Err(fault) => Err(PackErrorView::ZipError(fault)),
        Ok(size) => if size > max_bytes {
            Err(
                PackErrorView::InvalidPackage(
                    declares_too_much(name, size as nat, max_bytes as nat),
                ),
            )
        } else {
            match (zip_entry_content(bytes, name), fault) {
                (Some(content), _) => if content.len() < read_limit(max_bytes) {
                    Ok(content)
                } else {
                    Err(PackErrorView::InvalidPackage(holds_too_much(name, max_bytes as nat)))
                },
                (None, Some(fault)) => Err(read_error(fault)),
                (None, None) => Err(
                    PackErrorView::InvalidPackage(holds_too_much(name, max_bytes as nat)),
                ),
            }
        },
    }
}

/// One entry's contents under a limit, read into memory.
pub open spec fn bounded_entry(bytes: Seq<u8>, name: Seq<char>, max_bytes: usize) -> Result<
    Seq<u8>,
    PackErrorView,
> {
    entry_within(bytes, name, max_bytes, zip_read_fault(bytes, name, read_limit(max_bytes)))
}

/// One entry's contents under a limit, streamed.
pub open spec fn streamed_entry(bytes: Seq<u8>, name: Seq<char>, max_bytes: usize) -> Result<
    Seq<u8>,
    PackErrorView,
> {
    entry_within(bytes, name, max_bytes, zip_stream_fault(bytes, name, read_limit(max_bytes)))
}

/// What an entry gives does not depend on the limit, as long as the limit does
/// not refuse it, nor on whether it is read into memory or streamed; and no limit
/// above one that admits it refuses it.
pub proof fn contents_do_not_depend_on_the_limit(
    bytes: Seq<u8>,
    name: Seq<char>,
    smaller: usize,
    larger: usize,
)
    requires
        smaller <= larger,
        bounded_entry(bytes, name, smaller) is Ok || streamed_entry(bytes, name, smaller) is Ok,
    ensures
        bounded_entry(bytes, name, smaller) == bounded_entry(bytes, name, larger),
        streamed_entry(bytes, name, smaller) == bounded_entry(bytes, name, larger),
        streamed_entry(bytes, name, larger) == bounded_entry(bytes, name, larger),
        bounded_entry(bytes, name, larger)->Ok_0.len() <= smaller,
{
}

/// The message for an entry that declares more than the limit.
pub(crate) fn declared_message(name: &str, size: u64, limit: u64) -> (r: String)
    ensures
        r@ == declares_too_much(name@, size as nat, limit as nat),
{
    let size: String = decimal(size);
    let limit: String = decimal(limit);
    let head: String = cat5(
        "ZIP entry `",
        name,
        "` declares ",
        size.as_str(),
        " bytes, exceeds limit ",
    );
    crate::text::cat(head.as_str(), limit.as_str())
}

/// The message for an entry whose contents go beyond the limit.
fn content_message(name: &str, limit: u64) -> (r: String)
    ensures
        r@ == holds_too_much(name@, limit as nat),
{
    let limit: String = decimal(limit);
    let head: String = cat3("ZIP entry `", name, "` exceeds decompressed limit ");
    crate::text::cat(head.as_str(), limit.as_str())
}

/// Read a ZIP entry without allowing its declared or actual decompressed size
/// to exceed `max_bytes`.
pub(crate) fn read_zip_entry_bounded(
    archive: &mut zip::ZipArchive<Cursor<Vec<u8>>>,
    name: &str,
    max_bytes: usize,
) -> (r: Result<Vec<u8>, PackError>)
    ensures
        archive_bytes(*final(archive)) == archive_bytes(*old(archive)),
        match bounded_entry(archive_bytes(*old(archive)), name@, max_bytes) {
            Ok(content) => r matches Ok(c) && c@ == content && c@.len() <= max_bytes,
            Err(error) => r matches Err(e) && e@ == error,
        },
{
    let size: u64 = match entry_size(archive, name) {
        Ok(size) => size,
        Err(fault) => return Err(PackError::ZipError(fault)),
    };
    if size > max_bytes as u64 {
        return Err(PackError::InvalidPackage(declared_message(name, size, max_bytes as u64)));
    }
    let limit: u64 = (max_bytes as u64).saturating_add(1);
    let content: Vec<u8> = match entry_prefix(archive, name, limit) {
        Ok(content) => content,
        Err(e) => return Err(e),
    };
    if content.len() as u64 >= limit {
        return Err(PackError::InvalidPackage(content_message(name, max_bytes as u64)));
    }
    Ok(content)
}

/// Hash a ZIP entry without buffering its decompressed contents, rejecting it if
/// either its declared or actual decompressed size exceeds `max_bytes`. Returns
/// the digest and the decompressed size.
pub(crate) fn sha256_zip_entry_bounded(
    archive: &mut zip::ZipArchive<Cursor<Vec<u8>>>,
    name: &str,
    max_bytes: usize,
) -> (r: Result<(String, usize), PackError>)
    ensures
        archive_bytes(*final(archive)) == archive_bytes(*old(archive)),
        match streamed_entry(archive_bytes(*old(archive)), name@, max_bytes) {
            Ok(content) => r matches Ok((hash, n)) && hash@ == hex_text(sha256(content)) && n
                == content.len() && n <= max_bytes,
            Err(error) => r matches Err(e) && e@ == error,
        },
{
    let size: u64 = match entry_size(archive, name) {
        Ok(size) => size,
        Err(fault) => return Err(PackError::ZipError(fault)),
    };
    if size > max_bytes as u64 {
        return Err(PackError::InvalidPackage(declared_message(name, size, max_bytes as u64)));
    }
    let limit: u64 = (max_bytes as u64).saturating_add(1);
    let (digest, n): (Vec<u8>, u64) = match entry_digest(archive, name, limit) {
        Ok(streamed) => streamed,
        Err(e) => return Err(e),
    };
    if n >= limit {
        return Err(PackError::InvalidPackage(content_message(name, max_bytes as u64)));
    }
    Ok((hex_encode(digest.as_slice()), n as usize))
}

// ── laws ─────────────────────────────────────────────────────────────────────

/// An entry is given out exactly when it can be read to its end and neither its declared
/// nor its actual size exceeds the limit; what is given out is the whole of it, whether
/// it is read into memory or streamed.
pub proof fn entries_within_the_limit_are_given_whole(
    bytes: Seq<u8>,
    name: Seq<char>,
    max_bytes: usize,
    content: Seq<u8>,
)
    ensures
        bounded_entry(bytes, name, max_bytes) == Ok::<Seq<u8>, PackErrorView>(content) <==> {
            &&& zip_entry_size(bytes, name) matches Ok(size) && size <= max_bytes
            &&& zip_entry_content(bytes, name) == Some(content)
            &&& content.len() <= max_bytes
            &&& content.len() < u64::MAX
        },
        streamed_entry(bytes, name, max_bytes) == Ok::<Seq<u8>, PackErrorView>(content)
            <==> bounded_entry(bytes, name, max_bytes) == Ok::<Seq<u8>, PackErrorView>(content),
{
}

/// A failed lookup is reported as it is, and an entry that declares too much is refused
/// before it is read, however it would read.
pub proof fn refusals_come_before_reading(bytes: Seq<u8>, name: Seq<char>, max_bytes: usize)
    ensures
        zip_entry_size(bytes, name) matches Err(f) ==> bounded_entry(bytes, name, max_bytes)
            == Err::<Seq<u8>, PackErrorView>(PackErrorView::ZipError(f)) && streamed_entry(
            bytes,
            name,
            max_bytes,
        ) == Err::<Seq<u8>, PackErrorView>(PackErrorView::ZipError(f)),
        zip_entry_size(bytes, name) matches Ok(size) ==> size > max_bytes ==> bounded_entry(
            bytes,
            name,
            max_bytes,
        ) == Err::<Seq<u8>, PackErrorView>(
            PackErrorView::InvalidPackage(
                declares_too_much(name, size as nat, max_bytes as nat),
            ),
        ) && streamed_entry(bytes, name, max_bytes) == bounded_entry(bytes, name, max_bytes),
{
}

/// Cutting contents at a limit keeps their beginning and never more than the limit.
pub proof fn cuts_keep_the_beginning(content: Seq<u8>, limit: u64)
    ensures
        cut(content, limit).is_prefix_of(content),
        cut(content, limit).len() <= limit,
        content.len() <= limit ==> cut(content, limit) == content,
        content.len() > limit ==> cut(content, limit).len() == limit,
{
}

/// Hexadecimal text spells every byte with two lower-case digits, high half first, so
/// that different bytes have different texts.
pub proof fn hex_texts_spell_their_bytes(data: Seq<u8>, other: Seq<u8>, i: int)
    requires
        0 <= i < data.len(),
    ensures
        hex_text(data).len() == 2 * data.len(),
        data[i] == 16 * text::digit_value(hex_text(data)[2 * i]) + text::digit_value(
            hex_text(data)[2 * i + 1],
        ),
        '0' <= hex_text(data)[2 * i] <= '9' || 'a' <= hex_text(data)[2 * i] <= 'f',
        '0' <= hex_text(data)[2 * i + 1] <= '9' || 'a' <= hex_text(data)[2 * i + 1] <= 'f',
        hex_text(data) == hex_text(other) ==> data == other,
{
    assert((2 * i) / 2 == i && (2 * i) % 2 == 0);
    assert((2 * i + 1) / 2 == i && (2 * i + 1) % 2 == 1);
    if hex_text(data) == hex_text(other) {
        assert(hex_text(other).len() == 2 * other.len());
        assert(data.len() == other.len());
        assert forall|j: int| 0 <= j < data.len() implies data[j] == other[j] by {
            assert(hex_text(data)[2 * j] == hex_text(other)[2 * j]);
            assert(hex_text(data)[2 * j + 1] == hex_text(other)[2 * j + 1]);
            assert((2 * j) / 2 == j && (2 * j) % 2 == 0);
            assert((2 * j + 1) / 2 == j && (2 * j + 1) % 2 == 1);
        }
        assert(data =~= other);
    }
}

} // verus!
