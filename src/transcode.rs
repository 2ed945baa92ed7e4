//! Turning a full `.tar.zst` build archive into an install-only `.tar.gz`.
use vstd::prelude::*;
use crate::archive_io::{
    append_entry, block_padding, finish_tar, gzip_compress, gzip_of, new_tar_writer, read_tar_entries,
    set_header_path, tar_entries_of, tar_written, utf8_text, zeros, zstd_decode, zstd_decoded,
};
use crate::entries::{
    all_convertible, clear_ustar_prefix, is_install_path, entry_convertible, entry_views, fields_kept, install_entries,
    install_only_entries, install_only_path, lemma_prefix_cleared, lemma_round_trip, lemma_step,
    output_entry, ArchiveEntry, OutputEntry, SourceEntry,
};
use crate::header::{checksum_valid, lemma_sealed_valid, seal_header};

verus! {

/// Why a conversion failed.
#[derive(Debug, Clone, Copy, PartialEq, Eq, Structural)]
pub enum TranscodeError {
    /// The input is not a complete zstd stream.
    Decode,
    /// The decompressed bytes are not a well-formed tar archive.
    Container,
    /// A retained entry's new path is not UTF-8 text, or tar refused it.
    Path,
    /// The gzip compressor reported an error.
    Io,
}

/// The tar bytes of `o`: for each entry its header block, its body, and the
/// zeros that fill the body's last block.
pub open spec fn entries_bytes(o: Seq<OutputEntry>) -> Seq<u8>
    decreases o.len(),
{
    if o.len() == 0 {
        Seq::empty()
    } else {
        entries_bytes(o.drop_last()) + o.last().header + o.last().body + block_padding(
            o.last().body.len() as int,
        )
    }
}

/// A complete tar archive of `o`: the entries, then two zero blocks.
pub open spec fn archive_bytes(o: Seq<OutputEntry>) -> Seq<u8> {
    entries_bytes(o) + zeros(1024)
}

/// A source with no entry under `python/install/` gives an archive with no
/// entries, just the two zero blocks that end a tar archive, and no path
/// error can arise from it.
pub proof fn lemma_no_install_entries(s: Seq<SourceEntry>)
    requires
        install_entries(s).len() == 0,
    ensures
        archive_bytes(install_only_entries(s)) == zeros(1024),
        all_convertible(s),
{
    assert forall|i: int| 0 <= i < s.len() implies entry_convertible(#[trigger] s[i]) by {
        if is_install_path(s[i].path) {
            s.lemma_filter_contains(|e: SourceEntry| is_install_path(e.path), i);
        }
    }
    lemma_round_trip(s);
    assert(entries_bytes(install_only_entries(s)) == Seq::<u8>::empty());
    assert(Seq::<u8>::empty() + zeros(1024) =~= zeros(1024));
}

/// The source entries of a `.tar.zst` archive, if it decompresses and
/// reads as tar.
pub open spec fn source_entries(input: Seq<u8>) -> Option<Seq<SourceEntry>> {
    match zstd_decoded(input) {
        Some(t) => tar_entries_of(t),
        None => None,
    }
}

/// Every retained entry of `s` keeps its header fields, and every header of
/// the install-only archive has a valid checksum.
pub open spec fn headers_sound(s: Seq<SourceEntry>) -> bool {
    &&& install_only_entries(s).len() == install_entries(s).len()
    &&& forall|k: int|
        0 <= k < install_only_entries(s).len() ==> checksum_valid(
            (#[trigger] install_only_entries(s)[k]).header,
        ) && fields_kept(install_entries(s)[k].header, install_only_entries(s)[k].header)
}

/// Writes the install-only tar archive of `entries`: the entries under
/// `python/install/`, in order, moved to `python/`, each with a recomputed
/// header checksum. Fails, with `Path`, exactly when a retained entry's new
/// path is not UTF-8 or tar refuses it.
pub fn write_install_only_tar(entries: &Vec<ArchiveEntry>) -> (r: Result<Vec<u8>, TranscodeError>)
    requires
        forall|i: int| 0 <= i < entries@.len() ==> #[trigger] entries@[i].header@.len() == 512,
    ensures
        r is Ok <==> all_convertible(entry_views(entries@)),
        r is Err ==> r->Err_0 == TranscodeError::Path,
        r is Ok ==> r->Ok_0@ == archive_bytes(install_only_entries(entry_views(entries@))),
        r is Ok ==> headers_sound(entry_views(entries@)),
{
    let mut writer = new_tar_writer();
    let mut i: usize = 0;
    proof {
        lemma_round_trip(entry_views(entries@.subrange(0, 0)));
    }
    while i < entries.len()
        invariant
            0 <= i <= entries@.len(),
            forall|j: int| 0 <= j < entries@.len() ==> #[trigger] entries@[j].header@.len() == 512,
            tar_written(writer) == entries_bytes(
                install_only_entries(entry_views(entries@.subrange(0, i as int))),
            ),
            all_convertible(entry_views(entries@.subrange(0, i as int))),
            headers_sound(entry_views(entries@.subrange(0, i as int))),
        decreases entries@.len() - i,
    {
        let entry = &entries[i];
        let ghost before = entry_views(entries@.subrange(0, i as int));
        let ghost after = entry_views(entries@.subrange(0, i + 1));
        proof {
            assert(after.drop_last() =~= before);
            assert(after.last() == entry@);
            assert(entry_views(entries@)[i as int] == entry@);
            lemma_step(after);
        }
        match install_only_path(entry.path.as_slice()) {
            None => {
                assert(all_convertible(after)) by {
                    assert forall|j: int| 0 <= j < after.len() implies entry_convertible(#[trigger] after[j]) by {
                        if j < before.len() {
                            assert(after[j] == before[j]);
                        }
                    }
                }
            },
            Some(new_path) => {
                let text = match utf8_text(new_path.as_slice()) {
                    Some(t) => t,
                    None => {
                        assert(!entry_convertible(entry_views(entries@)[i as int]));
                        return Err(TranscodeError::Path);
                    },
                };
                let mut cleared = entry.header.clone();
                assert(cleared@ == entry.header@);
                clear_ustar_prefix(&mut cleared);
                let mut header = match set_header_path(&cleared, text) {
                    Ok(h) => h,
                    Err(_) => {
                        assert(!entry_convertible(entry_views(entries@)[i as int]));
                        return Err(TranscodeError::Path);
                    },
                };
                let ghost renamed = header@;
                seal_header(&mut header);
                let _ = append_entry(&mut writer, &header, &entry.body);
                proof {
                    lemma_prefix_cleared(entry.header@);
                    lemma_sealed_valid(renamed);
                    let o = OutputEntry { path: new_path@, header: header@, body: entry.body@ };
                    assert(output_entry(entry@) == Some(o));
                    let front = install_only_entries(before);
                    assert(front.push(o).drop_last() =~= front);
                    assert(front.push(o).last() == o);
                    assert(fields_kept(entry.header@, header@));
                    assert(all_convertible(after)) by {
                        assert forall|j: int| 0 <= j < after.len() implies entry_convertible(#[trigger] after[j]) by {
                            if j < before.len() {
                                assert(after[j] == before[j]);
                            }
                        }
                    }
                }
            },
        }
        i = i + 1;
    }
    assert(entries@.subrange(0, entries@.len() as int) =~= entries@);
    match finish_tar(writer) {
        Ok(bytes) => Ok(bytes),
        Err(_) => Err(TranscodeError::Io),
    }
}

/// Converts a zstd-compressed tar archive into the gzip-compressed tar
/// archive that holds only its `python/install/` tree, re-rooted at `python/`.
/// Each error names its cause, and the conversion succeeds exactly when none
/// occurs.
pub fn convert_to_install_only(input: &[u8]) -> (r: Result<Vec<u8>, TranscodeError>)
    ensures
        (r matches Err(TranscodeError::Decode)) <==> zstd_decoded(input@) is None,
        (r matches Err(TranscodeError::Container)) <==> zstd_decoded(input@) is Some
            && source_entries(input@) is None,
        (r matches Err(TranscodeError::Path)) <==> source_entries(input@) is Some && !all_convertible(
            source_entries(input@)->Some_0,
        ),
        (r matches Err(TranscodeError::Io)) <==> source_entries(input@) is Some && all_convertible(
            source_entries(input@)->Some_0,
        ) && gzip_of(archive_bytes(install_only_entries(source_entries(input@)->Some_0))) is None,
        r is Ok ==> source_entries(input@) is Some && gzip_of(
            archive_bytes(install_only_entries(source_entries(input@)->Some_0)),
        ) == Some(r->Ok_0@),
        r is Ok ==> headers_sound(source_entries(input@)->Some_0),
{
    let tar_bytes = match zstd_decode(input) {
        Ok(b) => b,
        Err(_) => {
            return Err(TranscodeError::Decode);
        },
    };
    let entries = match read_tar_entries(tar_bytes.as_slice()) {
        Ok(e) => e,
        Err(_) => {
            return Err(TranscodeError::Container);
        },
    };
    let tar = match write_install_only_tar(&entries) {
        Ok(t) => t,
        Err(e) => {
            return Err(e);
        },
    };
    match gzip_compress(tar.as_slice()) {
        Ok(gz) => Ok(gz),
        Err(_) => Err(TranscodeError::Io),
    }
}

} // verus!
