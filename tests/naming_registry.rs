use install_only::{install_only_file_name, release_triples, FileNameError, Registry, RegistryError, TripleRelease};

#[test]
fn file_name_replaces_second_to_last_field() {
    assert_eq!(
        install_only_file_name("cpython-3.11.4-x86_64-unknown-linux-gnu-pgo+lto-full.tar.zst").unwrap(),
        "cpython-3.11.4-x86_64-unknown-linux-gnu-install_only-full.tar.gz"
    );
}

#[test]
fn file_name_with_two_fields() {
    assert_eq!(install_only_file_name("pgo-full.tar.zst").unwrap(), "install_only-full.tar.gz");
}

#[test]
fn file_name_without_zst_extension_keeps_it() {
    assert_eq!(install_only_file_name("a-b-c.zip").unwrap(), "a-install_only-c.zip");
}

#[test]
fn file_name_without_hyphen_is_malformed() {
    assert_eq!(install_only_file_name("cpython.tar.zst"), Err(FileNameError::Malformed));
    assert_eq!(install_only_file_name(""), Err(FileNameError::Malformed));
}

#[test]
fn registry_lookup_known_triple() {
    let registry = release_triples().unwrap();
    let release = registry.lookup("x86_64-unknown-linux-gnu").unwrap();
    assert_eq!(release.install_only_suffix, "pgo+lto");
    for s in ["debug", "lto", "pgo", "pgo+lto"] {
        assert!(release.suffixes.iter().any(|x| x == s));
    }
    assert!(release.python_version_requirement.is_none());
}

#[test]
fn registry_lookup_unknown_triple() {
    let registry = release_triples().unwrap();
    assert!(registry.lookup("made-up-triple").is_none());
}

#[test]
fn registry_versioned_triple() {
    let registry = release_triples().unwrap();
    let release = registry.lookup("aarch64-unknown-linux-gnu").unwrap();
    assert_eq!(release.install_only_suffix, "lto");
    let req = release.python_version_requirement.as_ref().unwrap();
    assert!(req.matches(&semver::Version::new(3, 9, 0)));
    assert!(!req.matches(&semver::Version::new(3, 8, 10)));
}

#[test]
fn install_only_suffix_is_always_released() {
    let registry = release_triples().unwrap();
    for triple in [
        "aarch64-apple-darwin",
        "x86_64-apple-darwin",
        "i686-pc-windows-msvc-shared",
        "i686-pc-windows-msvc-static",
        "x86_64-pc-windows-msvc-shared",
        "x86_64-pc-windows-msvc-static",
        "aarch64-unknown-linux-gnu",
        "i686-unknown-linux-gnu",
        "x86_64-unknown-linux-gnu",
        "x86_64_v2-unknown-linux-gnu",
        "x86_64_v3-unknown-linux-gnu",
        "x86_64_v4-unknown-linux-gnu",
        "x86_64-unknown-linux-musl",
        "x86_64_v2-unknown-linux-musl",
        "x86_64_v3-unknown-linux-musl",
        "x86_64_v4-unknown-linux-musl",
    ] {
        let release = registry.lookup(triple).unwrap();
        assert!(release.suffixes.contains(&release.install_only_suffix));
    }
}

#[test]
fn duplicate_triple_is_refused() {
    let mut registry = Registry::new();
    let release = || TripleRelease {
        suffixes: vec!["pgo".to_string()],
        install_only_suffix: "pgo".to_string(),
        python_version_requirement: None,
    };
    assert_eq!(registry.insert("t", release()), Ok(()));
    assert_eq!(registry.insert("t", release()), Err(RegistryError::DuplicateTriple));
    assert!(registry.lookup("t").is_some());
}

