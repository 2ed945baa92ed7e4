//! Calls into zstd, tar and flate2, with the contracts the rest of the
//! library relies on.
use vstd::prelude::*;
use vstd::utf8::{decode_utf8, valid_utf8};
use crate::entries::{entry_views, header_with_path, ArchiveEntry, SourceEntry};

verus! {

#[verifier::external_type_specification]
#[verifier::external_body]
pub struct ExIoError(std::io::Error);

/// A tar archive being written into memory. tar's `Builder` is bounded by
/// `std::io::Write`, which cannot be declared here, so it is held opaquely
/// and described by `tar_written`.
#[verifier::external_body]
pub struct TarWriter {
    builder: tar::Builder<Vec<u8>>,
}

/// The bytes that zstd decompresses `data` into, or `None` where `data` is
/// not a complete zstd stream.
pub uninterp spec fn zstd_decoded(data: Seq<u8>) -> Option<Seq<u8>>;

/// The bytes a tar builder has written into its vector so far.
pub uninterp spec fn tar_written(w: TarWriter) -> Seq<u8>;

/// The entries that tar reads from the archive bytes `data`, or `None` where
/// tar finds `data` malformed.
pub uninterp spec fn tar_entries_of(data: Seq<u8>) -> Option<Seq<SourceEntry>>;

/// The gzip stream, at the default compression level, of `data`, or `None`
/// where the compressor reports an error.
pub uninterp spec fn gzip_of(data: Seq<u8>) -> Option<Seq<u8>>;

/// `n` zero bytes.
pub open spec fn zeros(n: int) -> Seq<u8> {
    Seq::new(n as nat, |i: int| 0u8)
}

/// The zero bytes that round a body of `len` bytes up to a whole block.
pub open spec fn block_padding(len: int) -> Seq<u8> {
    zeros((512 - len % 512) % 512)
}

/// Relies on zstd::stream::decode_all: decompresses a whole zstd stream.
#[verifier::external_body]
pub(crate) fn zstd_decode(data: &[u8]) -> (r: Result<Vec<u8>, std::io::Error>)
    ensures
        r is Ok <==> zstd_decoded(data@) is Some,
        r is Ok ==> zstd_decoded(data@) == Some(r->Ok_0@),
{
    zstd::stream::decode_all(data)
}

/// Relies on tar::Archive::entries, tar::Entry::path_bytes, tar::Entry::header
/// and reading each entry to its end: the entries of the archive `data`, in
/// order. tar's reader types are bounded by `std::io::Read`, which cannot be
/// declared here, so the entries are handed over as plain values.
#[verifier::external_body]
pub(crate) fn read_tar_entries(data: &[u8]) -> (r: Result<Vec<ArchiveEntry>, std::io::Error>)
    ensures
        r is Ok <==> tar_entries_of(data@) is Some,
        r is Ok ==> tar_entries_of(data@) == Some(entry_views(r->Ok_0@)),
        r is Ok ==> forall|i: int| 0 <= i < r->Ok_0@.len() ==> #[trigger] r->Ok_0@[i].header@.len() == 512,
{
    let mut archive = tar::Archive::new(data);
    archive.entries()?.map(|entry| {
        let mut entry = entry?;
        let path = entry.path_bytes().into_owned();
        let header = entry.header().as_bytes().to_vec();
        let mut body = Vec::new();
        std::io::Read::read_to_end(&mut entry, &mut body)?;
        Ok(ArchiveEntry { path, header, body })
    }).collect()
}

/// Relies on std::str::from_utf8: the text that `bytes` encode, if they are
/// valid UTF-8.
#[verifier::external_body]
pub(crate) fn utf8_text(bytes: &[u8]) -> (r: Option<&str>)
    ensures
        r is Some <==> valid_utf8(bytes@),
        r is Some ==> r->Some_0@ == decode_utf8(bytes@),
{
    std::str::from_utf8(bytes).ok()
}

/// Relies on tar::Header::set_path: a copy of header block `block` that
/// records `path`. Only the name field (bytes 0..100) and, in a ustar
/// header, the prefix field (bytes 345..500) are written.
#[verifier::external_body]
pub(crate) fn set_header_path(block: &Vec<u8>, path: &str) -> (r: Result<Vec<u8>, std::io::Error>)
    requires
        block@.len() == 512,
    ensures
        r is Ok <==> header_with_path(block@, path@) is Some,
        r is Ok ==> header_with_path(block@, path@) == Some(r->Ok_0@),
        r is Ok ==> r->Ok_0@.len() == 512,
        r is Ok ==> forall|i: int|
            0 <= i < 512 && !(0 <= i < 100) && !(345 <= i < 500) ==> #[trigger] r->Ok_0@[i] == block@[i],
{
    let mut header = tar::Header::from_byte_slice(block.as_slice()).clone();
    header.set_path(path)?;
    Ok(header.as_bytes().to_vec())
}

/// Relies on tar::Builder::new: a builder that has written nothing yet.
#[verifier::external_body]
pub(crate) fn new_tar_writer() -> (r: TarWriter)
    ensures
        tar_written(r) == Seq::<u8>::empty(),
{
    TarWriter { builder: tar::Builder::new(Vec::new()) }
}

/// Relies on tar::Builder::append: writes the header block, then the body,
/// then zeros up to the next block boundary. Writing into a `Vec` and
/// reading from a slice never fail, so neither does this.
#[verifier::external_body]
pub(crate) fn append_entry(writer: &mut TarWriter, header: &Vec<u8>, body: &Vec<u8>) -> (r: Result<
    (),
    std::io::Error,
>)
    requires
        header@.len() == 512,
    ensures
        r is Ok,
        tar_written(*final(writer)) == tar_written(*old(writer)) + header@ + body@ + block_padding(
            body@.len() as int,
        ),
{
    writer.builder.append(tar::Header::from_byte_slice(header.as_slice()), body.as_slice())
}

/// Relies on tar::Builder::into_inner: writes the two zero blocks that end
/// an archive and hands back the bytes; writing into a `Vec` never fails.
#[verifier::external_body]
pub(crate) fn finish_tar(writer: TarWriter) -> (r: Result<Vec<u8>, std::io::Error>)
    ensures
        r is Ok,
        r->Ok_0@ == tar_written(writer) + zeros(1024),
{
    writer.builder.into_inner()
}

/// Relies on flate2::write::GzEncoder: compresses `data` into a complete
/// gzip stream at the default level.
#[verifier::external_body]
pub(crate) fn gzip_compress(data: &[u8]) -> (r: Result<Vec<u8>, std::io::Error>)
    ensures
        r is Ok <==> gzip_of(data@) is Some,
        r is Ok ==> gzip_of(data@) == Some(r->Ok_0@),
{
    let mut encoder = flate2::write::GzEncoder::new(Vec::new(), flate2::Compression::default());
    std::io::Write::write_all(&mut encoder, data)?;
    encoder.finish()
}

} // verus!
