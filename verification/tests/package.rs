use fidius::package::{
    package_digest_of,
    archive_entry_name, archive_prefix, default_archive_file_name, is_excluded_dir,
    is_signature_file, sort_paths, ArchiveEntry, PackageError, PackageHeader, PackageManifest,
    PackageRuntime, PathComponentKind, PythonPackageMeta, UnpackBudget, UnpackOptions,
};
use sha2::{Digest, Sha256};

fn header(runtime: Option<&str>) -> PackageHeader {
    PackageHeader {
        name: "test".to_string(),
        version: "1.0.0".to_string(),
        interface: "api".to_string(),
        interface_version: 1,
        extension: None,
        runtime: runtime.map(|r| r.to_string()),
    }
}

#[test]
fn extension_defaults_to_fid() {
    let header = PackageHeader {
        name: "test".to_string(),
        version: "1.0.0".to_string(),
        interface: "api".to_string(),
        interface_version: 1,
        extension: None,
        runtime: None,
    };
    assert_eq!(header.extension(), "fid");

    let header_custom = PackageHeader {
        extension: Some("cloacina".to_string()),
        ..header
    };
    assert_eq!(header_custom.extension(), "cloacina");
}

#[test]
fn package_runtime_display_and_str() {
    assert_eq!(PackageRuntime::Rust.as_str(), "rust");
    assert_eq!(PackageRuntime::Python.as_str(), "python");
    assert_eq!(PackageRuntime::Python.to_string(), "python");
}

#[test]
fn runtime_defaults_to_rust_and_reads_python() {
    assert_eq!(header(None).runtime(), PackageRuntime::Rust);
    assert_eq!(header(Some("python")).runtime(), PackageRuntime::Python);
    assert_eq!(header(Some("rust")).runtime(), PackageRuntime::Rust);
}

#[test]
fn unknown_runtime_is_rejected_strictly() {
    match header(Some("ruby")).runtime_strict() {
        Err(PackageError::InvalidManifest(m)) => {
            assert!(m.contains("unknown runtime 'ruby'"), "{m}")
        }
        other => panic!("expected InvalidManifest, got {other:?}"),
    }
    assert!(header(Some("python")).runtime_strict().is_ok());
}

#[test]
fn python_section_must_match_runtime() {
    let python_meta = PythonPackageMeta {
        entry_module: "plugin".to_string(),
        requirements: None,
    };
    let ok = PackageManifest {
        package: header(Some("python")),
        metadata: (),
        python: Some(python_meta.clone()),
    };
    assert!(ok.validate().is_ok());
    let missing = PackageManifest {
        package: header(Some("python")),
        metadata: (),
        python: None,
    };
    assert!(matches!(missing.validate(), Err(PackageError::InvalidManifest(_))));
    let stray = PackageManifest {
        package: header(None),
        metadata: (),
        python: Some(python_meta),
    };
    assert!(matches!(stray.validate(), Err(PackageError::InvalidManifest(_))));
}

#[test]
fn requirements_path_defaults() {
    let meta = PythonPackageMeta {
        entry_module: "plugin".to_string(),
        requirements: None,
    };
    assert_eq!(meta.requirements_path(), "requirements.txt");
}

#[test]
fn unpack_options_defaults() {
    let o = UnpackOptions::default();
    assert_eq!(o.max_decompressed, 500 * 1024 * 1024);
    assert_eq!(o.max_ratio, 10);
    assert_eq!(o.max_entries, 10_000);
}

fn entry(components: Vec<PathComponentKind>, size: u64) -> ArchiveEntry {
    ArchiveEntry {
        display: "pkg/x".to_string(),
        components,
        is_symlink: false,
        is_hard_link: false,
        declared_size: size,
    }
}

#[test]
fn budget_rejects_links_and_escapes() {
    let o = UnpackOptions::default();
    let mut b = UnpackBudget::new(1000, &o);
    let mut link = entry(vec![PathComponentKind::Normal], 1);
    link.is_symlink = true;
    assert!(matches!(b.check_entry(&o, &link), Err(PackageError::SymlinkRejected { .. })));
    let mut hard = entry(vec![PathComponentKind::Normal], 1);
    hard.is_hard_link = true;
    assert!(matches!(b.check_entry(&o, &hard), Err(PackageError::HardlinkRejected { .. })));
    let up = entry(vec![PathComponentKind::Normal, PathComponentKind::ParentDir], 1);
    assert!(matches!(b.check_entry(&o, &up), Err(PackageError::PathTraversal { .. })));
    let abs = entry(vec![PathComponentKind::RootDir, PathComponentKind::Normal], 1);
    assert!(matches!(b.check_entry(&o, &abs), Err(PackageError::AbsolutePath { .. })));
    assert_eq!(b.total, 0);
}

#[test]
fn budget_enforces_size_and_ratio_caps() {
    let o = UnpackOptions {
        max_decompressed: 100,
        max_ratio: 2,
        max_entries: 3,
    };
    let mut b = UnpackBudget::new(40, &o);
    assert_eq!(b.ratio_cap, 80);
    assert!(b.check_entry(&o, &entry(vec![PathComponentKind::Normal], 50)).is_ok());
    match b.check_entry(&o, &entry(vec![PathComponentKind::Normal], 40)) {
        Err(PackageError::SizeLimitExceeded { limit, actual }) => {
            assert_eq!(limit, 80);
            assert_eq!(actual, 90);
        }
        other => panic!("expected ratio rejection, got {other:?}"),
    }
    let mut c = UnpackBudget::new(0, &o);
    match c.check_entry(&o, &entry(vec![PathComponentKind::Normal], 101)) {
        Err(PackageError::SizeLimitExceeded { limit, actual }) => {
            assert_eq!(limit, 100);
            assert_eq!(actual, 101);
        }
        other => panic!("expected size rejection, got {other:?}"),
    }
}

#[test]
fn budget_counts_entries() {
    let o = UnpackOptions {
        max_decompressed: 100,
        max_ratio: 10,
        max_entries: 2,
    };
    let mut b = UnpackBudget::new(10, &o);
    assert!(b.admit_entry(&o).is_ok());
    assert!(b.admit_entry(&o).is_ok());
    assert!(matches!(b.admit_entry(&o), Err(PackageError::TooManyEntries { limit: 2 })));
}

#[test]
fn archive_naming() {
    let h = header(None);
    assert_eq!(archive_prefix(&h), "test-1.0.0");
    assert_eq!(archive_entry_name("test-1.0.0", "src/lib.rs"), "test-1.0.0/src/lib.rs");
    assert_eq!(default_archive_file_name(&h), "test-1.0.0.fid");
}

#[test]
fn excluded_dirs_and_signature_files() {
    assert!(is_excluded_dir("target"));
    assert!(is_excluded_dir(".git"));
    assert!(!is_excluded_dir("src"));
    assert!(is_signature_file("package.sig"));
    assert!(!is_signature_file("package.toml"));
}

#[test]
fn paths_sort_bytewise() {
    let sorted = sort_paths(vec!["b".to_string(), "B".to_string(), "a/c".to_string(), "a".to_string()]);
    assert_eq!(sorted, vec!["B", "a", "a/c", "b"]);
}

#[test]
fn digest_hashes_length_prefixed_paths_and_contents() {
    let files = vec![
        ("a.txt".to_string(), b"hi".to_vec()),
        ("src/lib.rs".to_string(), Vec::new()),
    ];
    let mut stream = Vec::new();
    for (p, c) in &files {
        stream.extend_from_slice(&(p.len() as u64).to_le_bytes());
        stream.extend_from_slice(p.as_bytes());
        stream.extend_from_slice(&(c.len() as u64).to_le_bytes());
        stream.extend_from_slice(c);
    }
    let expected: [u8; 32] = Sha256::digest(&stream).into();
    assert_eq!(package_digest_of(&files), expected);
    assert_ne!(package_digest_of(&files), package_digest_of(&files[..1]));
}

#[test]
fn validate_runtime_rejects_unknown_runtimes() {
    let m = PackageManifest { package: header(Some("node")), metadata: (), python: None };
    match m.validate_runtime() {
        Err(PackageError::InvalidManifest(msg)) => assert!(msg.contains("unknown runtime 'node'"), "{msg}"),
        other => panic!("expected InvalidManifest, got {other:?}"),
    }
    let ok = PackageManifest { package: header(Some("rust")), metadata: (), python: None };
    assert!(ok.validate_runtime().is_ok());
}
