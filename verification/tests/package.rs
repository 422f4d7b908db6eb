use std::io::{Cursor, Write};

use cosmic_widgets::{
    check_active_content, finish_package, open_package, Manifest, PackageError, PackageLimits,
    PlacementKind, RefreshPolicy, Size, PACKAGE_SCHEMA,
};
use semver::Version;
use sha2::Digest;
use zip::write::SimpleFileOptions;

const MANIFEST: &str = "schema=1\nid='io.github.vynxc.Test'\nversion='0.1.0'\nname='Test'\ndefault_size={width=200,height=100}\nmin_size={width=100,height=50}\nmax_size={width=400,height=200}\n";

fn archive(files: &[(&str, &str)]) -> Vec<u8> {
    let mut zip = zip::ZipWriter::new(Cursor::new(Vec::new()));
    for (name, contents) in files {
        zip.start_file(*name, SimpleFileOptions::default())
            .expect("entry should start");
        zip.write_all(contents.as_bytes()).expect("entry should write");
    }
    zip.finish().expect("archive should finish").into_inner()
}

fn package_with_html(html: &str) -> Vec<u8> {
    archive(&[("widget.toml", MANIFEST), ("index.html", html)])
}

/// The manifest that `MANIFEST` describes, with the schema's defaults filled in.
fn test_manifest() -> Manifest {
    Manifest {
        schema: PACKAGE_SCHEMA,
        id: "io.github.vynxc.Test".into(),
        version: Version::new(0, 1, 0),
        name: "Test".into(),
        description: String::new(),
        entry: "index.html".into(),
        default_size: Size { width: 200, height: 100 },
        min_size: Size { width: 100, height: 50 },
        max_size: Size { width: 400, height: 200 },
        placements: vec![PlacementKind::Desktop],
        refresh: RefreshPolicy::OnChange,
        capabilities: Vec::new(),
        wasm: None,
    }
}

fn validate(raw: Vec<u8>, manifest: Manifest) -> Result<cosmic_widgets::ValidatedPackage, PackageError> {
    let opened = open_package(raw, PackageLimits::default())?;
    assert_eq!(opened.manifest_text, MANIFEST);
    finish_package(opened, manifest, PackageLimits::default())
}

#[test]
fn validate_package_should_accept_declarative_widget() {
    let raw = package_with_html("<main data-cw-text='clock.time'></main>");
    assert!(validate(raw, test_manifest()).is_ok());
}

#[test]
fn validate_package_should_reject_script() {
    let raw = package_with_html("<script>alert(1)</script>");
    assert!(matches!(
        validate(raw, test_manifest()),
        Err(PackageError::ActiveContent(_))
    ));
}

#[test]
fn validated_package_should_list_files_and_digest() {
    let raw = package_with_html("<main></main>");
    let expected_digest = format!("{:x}", <sha2::Sha256 as Digest>::digest(&raw));
    let package = validate(raw, test_manifest()).expect("package should validate");
    assert_eq!(package.sha256, expected_digest);
    assert_eq!(package.sha256.len(), 64);
    assert_eq!(package.files, vec!["index.html".to_string(), "widget.toml".to_string()]);
}

#[test]
fn check_active_content_should_ignore_case_and_report_first_marker() {
    assert!(check_active_content("<main>hello</main>").is_ok());
    for (html, marker) in [
        ("<SCRIPT src=x>", "<script"),
        ("<a href='JavaScript:alert(1)'>", "javascript:"),
        ("<iFrame></iframe><script>", "<script"),
        ("<object data=x>", "<object"),
        ("<EMBED src=x>", "<embed"),
        ("<IFRAME>", "<iframe"),
    ] {
        match check_active_content(html) {
            Err(PackageError::ActiveContent(found)) => assert_eq!(found, marker, "{html}"),
            other => panic!("{html}: unexpected {other:?}"),
        }
    }
}

#[test]
fn open_package_should_reject_missing_manifest() {
    let raw = archive(&[("index.html", "<main></main>")]);
    assert!(matches!(
        open_package(raw, PackageLimits::default()),
        Err(PackageError::MissingManifest)
    ));
}

#[test]
fn open_package_should_reject_non_zip_bytes() {
    assert!(matches!(
        open_package(b"not an archive".to_vec(), PackageLimits::default()),
        Err(PackageError::Zip(_))
    ));
}

#[test]
fn open_package_should_reject_traversal_and_absolute_paths() {
    for name in ["../escape.html", "/abs.html"] {
        let raw = archive(&[("widget.toml", MANIFEST), (name, "x")]);
        match open_package(raw, PackageLimits::default()) {
            Err(PackageError::UnsafePath(found)) => assert_eq!(found, name),
            other => panic!("{name}: unexpected {:?}", other.err()),
        }
    }
}

#[test]
fn open_package_should_enforce_limits() {
    let raw = package_with_html("<main></main>");
    let mut limits = PackageLimits::default();
    limits.max_files = 1;
    assert!(matches!(
        open_package(raw.clone(), limits),
        Err(PackageError::TooManyFiles)
    ));

    let mut limits = PackageLimits::default();
    limits.max_file_bytes = 20;
    match open_package(raw.clone(), limits) {
        Err(PackageError::FileTooLarge(name)) => assert_eq!(name, "widget.toml"),
        other => panic!("unexpected {:?}", other.err()),
    }

    let mut limits = PackageLimits::default();
    limits.max_total_bytes = MANIFEST.len() as u64;
    assert!(matches!(
        open_package(raw.clone(), limits),
        Err(PackageError::PackageTooLarge)
    ));

    let mut limits = PackageLimits::default();
    limits.max_manifest_bytes = 10;
    match open_package(raw, limits) {
        Err(PackageError::FileTooLarge(name)) => assert_eq!(name, "widget.toml"),
        other => panic!("unexpected {:?}", other.err()),
    }
}

#[test]
fn finish_package_should_reject_invalid_manifest_and_missing_files() {
    let raw = package_with_html("<main></main>");
    let mut manifest = test_manifest();
    manifest.min_size.width = 0;
    match validate(raw.clone(), manifest) {
        Err(PackageError::InvalidManifest(message)) => {
            assert_eq!(message, "minimum size must be non-zero")
        }
        other => panic!("unexpected {:?}", other.err()),
    }

    let mut manifest = test_manifest();
    manifest.entry = "main.html".into();
    match validate(raw, manifest) {
        Err(PackageError::MissingFile(name)) => assert_eq!(name, "main.html"),
        other => panic!("unexpected {:?}", other.err()),
    }
}

#[test]
fn package_limits_should_default_to_documented_ceilings() {
    let limits = PackageLimits::default();
    assert_eq!(limits.max_files, 128);
    assert_eq!(limits.max_file_bytes, 8 * 1024 * 1024);
    assert_eq!(limits.max_total_bytes, 32 * 1024 * 1024);
    assert_eq!(limits.max_manifest_bytes, 64 * 1024);
}

#[test]
fn opened_package_files_should_come_sorted_whatever_the_archive_order() {
    let raw = archive(&[
        ("widget.toml", MANIFEST),
        ("zeta.css", "p{}"),
        ("index.html", "<main></main>"),
        ("Assets/b.png", "b"),
        ("assets/a.png", "a"),
        ("index.htm", "x"),
    ]);
    let opened = open_package(raw, PackageLimits::default()).expect("package should open");
    assert_eq!(
        opened.files,
        vec![
            "Assets/b.png".to_string(),
            "assets/a.png".to_string(),
            "index.htm".to_string(),
            "index.html".to_string(),
            "widget.toml".to_string(),
            "zeta.css".to_string(),
        ]
    );
}
