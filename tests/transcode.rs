use install_only::entries::install_only_path;
use install_only::header::seal_header;
use install_only::{convert_to_install_only, TranscodeError};
use std::io::Read;

fn tar_with(entries: &[(&[u8], &[u8])]) -> Vec<u8> {
    let mut builder = tar::Builder::new(Vec::new());
    for (path, body) in entries {
        let mut header = tar::Header::new_gnu();
        header.as_mut_bytes()[..path.len()].copy_from_slice(path);
        header.set_size(body.len() as u64);
        header.set_mode(0o644);
        header.set_entry_type(tar::EntryType::Regular);
        header.set_cksum();
        builder.append(&header, *body).unwrap();
    }
    builder.into_inner().unwrap()
}

fn tar_zst_with(entries: &[(&[u8], &[u8])]) -> Vec<u8> {
    zstd::stream::encode_all(&tar_with(entries)[..], 0).unwrap()
}

fn header_checksum_ok(block: &[u8]) -> bool {
    let mut sum: u32 = 0;
    for (i, b) in block.iter().enumerate() {
        sum += if (148..156).contains(&i) { 32 } else { *b as u32 };
    }
    let field = std::str::from_utf8(&block[148..155]).unwrap();
    u32::from_str_radix(field, 8).unwrap() == sum && block[155] == 0
}

/// Decompresses and reads an install-only archive: each entry's path, body
/// and whether its header checksum verifies.
fn read_tar_gz(bytes: &[u8]) -> Vec<(Vec<u8>, Vec<u8>, bool)> {
    let mut raw = Vec::new();
    flate2::read::GzDecoder::new(bytes).read_to_end(&mut raw).unwrap();
    assert_eq!(raw.len() % 512, 0);
    assert!(raw[raw.len() - 1024..].iter().all(|b| *b == 0));
    let mut archive = tar::Archive::new(&raw[..]);
    let mut out = Vec::new();
    for entry in archive.entries().unwrap() {
        let mut entry = entry.unwrap();
        let path = entry.path_bytes().into_owned();
        let ok = header_checksum_ok(entry.header().as_bytes());
        let mut body = Vec::new();
        entry.read_to_end(&mut body).unwrap();
        out.push((path, body, ok));
    }
    out
}

#[test]
fn other_entries_are_dropped() {
    let input = tar_zst_with(&[
        (b"python/build/log.txt", b"build log"),
        (b"python/install/bin/python3", b"ELF"),
        (b"python/licenses/LICENSE", b"license"),
    ]);
    let out = read_tar_gz(&convert_to_install_only(&input).unwrap());
    assert_eq!(out.len(), 1);
    assert_eq!(out[0].0, b"python/bin/python3".to_vec());
}

#[test]
fn install_entries_are_rerooted_with_same_body() {
    let input = tar_zst_with(&[
        (b"python/install/lib/libpython3.so", b"\x7fELF library bytes"),
        (b"python/install/include/Python.h", b"#define PY 1\n"),
    ]);
    let out = read_tar_gz(&convert_to_install_only(&input).unwrap());
    assert_eq!(out.len(), 2);
    assert_eq!(out[0].0, b"python/lib/libpython3.so".to_vec());
    assert_eq!(out[0].1, b"\x7fELF library bytes".to_vec());
    assert_eq!(out[1].0, b"python/include/Python.h".to_vec());
    assert_eq!(out[1].1, b"#define PY 1\n".to_vec());
}

#[test]
fn output_header_checksums_verify() {
    let input = tar_zst_with(&[
        (b"python/install/a", b"1"),
        (b"python/install/some/longer/path/to/a/file.py", b"print('hi')\n"),
    ]);
    let out = read_tar_gz(&convert_to_install_only(&input).unwrap());
    assert_eq!(out.len(), 2);
    assert!(out.iter().all(|(_, _, ok)| *ok));
}

#[test]
fn retained_entries_keep_their_order() {
    let input = tar_zst_with(&[
        (b"python/install/z", b"z"),
        (b"python/other", b"x"),
        (b"python/install/a", b"a"),
        (b"python/install/m", b"m"),
    ]);
    let out = read_tar_gz(&convert_to_install_only(&input).unwrap());
    let paths: Vec<Vec<u8>> = out.iter().map(|e| e.0.clone()).collect();
    assert_eq!(paths, vec![b"python/z".to_vec(), b"python/a".to_vec(), b"python/m".to_vec()]);
}

#[test]
fn round_trip_gives_back_install_bodies() {
    let inputs: Vec<(&[u8], &[u8])> = vec![
        (b"python/install/bin/python", b"binary"),
        (b"python/PYTHON.json", b"{}"),
        (b"python/install/lib/os.py", b"import sys\n"),
    ];
    let out = read_tar_gz(&convert_to_install_only(&tar_zst_with(&inputs)).unwrap());
    let back: Vec<(Vec<u8>, Vec<u8>)> = out
        .iter()
        .map(|(p, b, _)| {
            let mut path = b"python/install/".to_vec();
            path.extend_from_slice(&p[b"python/".len()..]);
            (path, b.clone())
        })
        .collect();
    let expected: Vec<(Vec<u8>, Vec<u8>)> = inputs
        .iter()
        .filter(|(p, _)| p.starts_with(b"python/install/"))
        .map(|(p, b)| (p.to_vec(), b.to_vec()))
        .collect();
    assert_eq!(back, expected);
}

#[test]
fn no_install_entries_gives_empty_archive() {
    let input = tar_zst_with(&[(b"python/build/log", b"log")]);
    let gz = convert_to_install_only(&input).unwrap();
    let mut raw = Vec::new();
    flate2::read::GzDecoder::new(&gz[..]).read_to_end(&mut raw).unwrap();
    assert_eq!(raw, vec![0u8; 1024]);
    assert!(read_tar_gz(&gz).is_empty());
}

#[test]
fn empty_archive_gives_empty_archive() {
    let gz = convert_to_install_only(&tar_zst_with(&[])).unwrap();
    assert!(read_tar_gz(&gz).is_empty());
}

#[test]
fn similar_prefix_is_skipped() {
    let input = tar_zst_with(&[(b"python/installer/x", b"x"), (b"python/install/y", b"y")]);
    let out = read_tar_gz(&convert_to_install_only(&input).unwrap());
    assert_eq!(out.len(), 1);
    assert_eq!(out[0].0, b"python/y".to_vec());
}

#[test]
fn corrupt_input_is_a_decode_error() {
    assert_eq!(convert_to_install_only(b"not zstd at all"), Err(TranscodeError::Decode));
}

#[test]
fn malformed_tar_is_a_container_error() {
    let junk = zstd::stream::encode_all(&vec![7u8; 1024][..], 0).unwrap();
    assert_eq!(convert_to_install_only(&junk), Err(TranscodeError::Container));
}

#[test]
fn non_utf8_install_path_is_a_path_error() {
    let input = tar_zst_with(&[(b"python/install/\xff\xfe", b"x")]);
    assert_eq!(convert_to_install_only(&input), Err(TranscodeError::Path));
}

#[test]
fn install_only_path_reroots() {
    assert_eq!(install_only_path(b"python/install/bin/x"), Some(b"python/bin/x".to_vec()));
    assert_eq!(install_only_path(b"python/install/"), Some(b"python/".to_vec()));
    assert_eq!(install_only_path(b"python/installer/x"), None);
    assert_eq!(install_only_path(b"python/install"), None);
    assert_eq!(install_only_path(b""), None);
}

#[test]
fn seal_header_matches_tar_checksum() {
    let mut header = tar::Header::new_ustar();
    header.set_path("python/bin/python3").unwrap();
    header.set_size(1234);
    header.set_mode(0o755);
    let mut block = header.as_bytes().to_vec();
    seal_header(&mut block);
    header.set_cksum();
    assert_eq!(block, header.as_bytes().to_vec());
    assert!(header_checksum_ok(&block));
}

#[test]
fn seal_header_of_zero_block() {
    let mut block = vec![0u8; 512];
    seal_header(&mut block);
    // Eight spaces: 8 * 32 = 256 = 0o400.
    assert_eq!(&block[148..156], b"0000400\0");
}


#[test]
fn ustar_long_path_is_rerooted_whole() {
    let dir = "d".repeat(90);
    let path = format!("python/install/{}/file.txt", dir);
    let mut header = tar::Header::new_ustar();
    header.set_size(3);
    header.set_mode(0o644);
    let mut builder = tar::Builder::new(Vec::new());
    builder.append_data(&mut header, &path, &b"abc"[..]).unwrap();
    let tar = builder.into_inner().unwrap();
    let input = zstd::stream::encode_all(&tar[..], 0).unwrap();
    let out = read_tar_gz(&convert_to_install_only(&input).unwrap());
    assert_eq!(out.len(), 1);
    assert_eq!(out[0].0, format!("python/{}/file.txt", dir).into_bytes());
    assert_eq!(out[0].1, b"abc".to_vec());
    assert!(out[0].2);
}

#[test]
fn header_fields_are_kept() {
    let mut header = tar::Header::new_ustar();
    header.set_path("python/install/bin/tool").unwrap();
    header.set_size(4);
    header.set_mode(0o751);
    header.set_uid(42);
    header.set_gid(7);
    header.set_mtime(1_600_000_000);
    header.set_cksum();
    let mut builder = tar::Builder::new(Vec::new());
    builder.append(&header, &b"tool"[..]).unwrap();
    let input = zstd::stream::encode_all(&builder.into_inner().unwrap()[..], 0).unwrap();
    let gz = convert_to_install_only(&input).unwrap();
    let mut raw = Vec::new();
    flate2::read::GzDecoder::new(&gz[..]).read_to_end(&mut raw).unwrap();
    let mut archive = tar::Archive::new(&raw[..]);
    let entry = archive.entries().unwrap().next().unwrap().unwrap();
    let out = entry.header();
    assert_eq!(out.path().unwrap().to_str().unwrap(), "python/bin/tool");
    assert_eq!(out.size().unwrap(), 4);
    assert_eq!(out.mode().unwrap(), 0o751);
    assert_eq!(out.uid().unwrap(), 42);
    assert_eq!(out.gid().unwrap(), 7);
    assert_eq!(out.mtime().unwrap(), 1_600_000_000);
}

#[test]
fn path_too_long_for_gnu_name_is_a_path_error() {
    let long = format!("python/install/{}", "x".repeat(99));
    let mut header = tar::Header::new_gnu();
    header.set_size(1);
    header.set_mode(0o644);
    let mut builder = tar::Builder::new(Vec::new());
    builder.append_data(&mut header, &long, &b"x"[..]).unwrap();
    let input = zstd::stream::encode_all(&builder.into_inner().unwrap()[..], 0).unwrap();
    assert_eq!(convert_to_install_only(&input), Err(TranscodeError::Path));
}
