use bin_patch_gen::archive::{contains_directory, extraction_plan, read_entries, ArchiveEntry};
use bin_patch_gen::payload::{find_file, locate_payload, manifest_payload, resolve_by_name, PayloadLocation};
use bin_patch_gen::{PipelineError, JAR_VERSIONS_PATH, SERVER_JAR_REGEX, SPIGOT_SERVER_JAR_REGEX};
use std::io::Write;

fn make_zip(dirs: &[&str], files: &[(&str, &[u8])]) -> Vec<u8> {
    let mut w = zip::ZipWriter::new(std::io::Cursor::new(Vec::new()));
    let opts = zip::write::SimpleFileOptions::default()
        .compression_method(zip::CompressionMethod::Stored);
    for d in dirs {
        w.add_directory(d.to_string(), opts).unwrap();
    }
    for (name, data) in files {
        w.start_file(name.to_string(), opts).unwrap();
        w.write_all(data).unwrap();
    }
    w.finish().unwrap().into_inner()
}

fn nested_zip() -> Vec<u8> {
    make_zip(
        &["META-INF/", "META-INF/versions/", "META-INF/versions/1.21/"],
        &[
            ("META-INF/MANIFEST.MF", b"Manifest-Version: 1.0\n"),
            ("META-INF/versions.list", b"abc\t1.21\t1.21/server-1.21.jar\n"),
            ("META-INF/versions/1.21/server-1.21.jar", b"payload"),
        ],
    )
}

#[test]
fn lists_entries_in_order() {
    let entries = read_entries(&nested_zip()).unwrap();
    assert_eq!(entries.len(), 6);
    assert_eq!(entries[0], ArchiveEntry { path: Some("META-INF/".to_string()), is_dir: true });
    assert_eq!(
        entries[5],
        ArchiveEntry { path: Some("META-INF/versions/1.21/server-1.21.jar".to_string()), is_dir: false }
    );
}

#[test]
fn garbage_is_not_an_archive() {
    assert_eq!(read_entries(&b"garbage bytes".to_vec()), Err(PipelineError::NotAnArchive));
    assert_eq!(read_entries(&Vec::new()), Err(PipelineError::NotAnArchive));
}

#[test]
fn finds_versions_directory() {
    let entries = read_entries(&nested_zip()).unwrap();
    assert!(contains_directory(&entries, JAR_VERSIONS_PATH));
    assert!(contains_directory(&entries, "META-INF/versions"));
    assert!(contains_directory(&entries, "./META-INF//versions/"));
    assert!(!contains_directory(&entries, "META-INF/versions/1.2"));
    let flat = read_entries(&make_zip(&["META-INF/"], &[("a.class", b"x")])).unwrap();
    assert!(!contains_directory(&flat, JAR_VERSIONS_PATH));
}

#[test]
fn a_file_is_not_a_directory() {
    let only_file = vec![ArchiveEntry { path: Some("META-INF/versions".to_string()), is_dir: false }];
    assert!(!contains_directory(&only_file, JAR_VERSIONS_PATH));
}

#[test]
fn extraction_skips_directories_and_escaping_paths() {
    let entries = vec![
        ArchiveEntry { path: Some("META-INF/".to_string()), is_dir: true },
        ArchiveEntry { path: Some("a.txt".to_string()), is_dir: false },
        ArchiveEntry { path: None, is_dir: false },
        ArchiveEntry { path: Some("b/c.txt".to_string()), is_dir: false },
    ];
    assert_eq!(extraction_plan(&entries), vec![1, 3]);
}

#[test]
fn escaping_entry_has_no_path() {
    let entries = read_entries(&make_zip(&[], &[("../evil.txt", b"x"), ("ok.txt", b"y")])).unwrap();
    assert_eq!(entries[0].path, None);
    assert_eq!(extraction_plan(&entries), vec![1]);
}

#[test]
fn manifest_first_record_third_field() {
    assert_eq!(
        manifest_payload("hash\tid\t1.21/server-1.21.jar\nh2\tid2\tother.jar\n"),
        Some("1.21/server-1.21.jar".to_string())
    );
    assert_eq!(manifest_payload("hash\tid\tpath.jar"), Some("path.jar".to_string()));
    assert_eq!(manifest_payload("hash\tid\tpath.jar\textra"), Some("path.jar".to_string()));
}

#[test]
fn malformed_manifest_has_no_entry() {
    assert_eq!(manifest_payload(""), None);
    assert_eq!(manifest_payload("only one field"), None);
    assert_eq!(manifest_payload("a\tb\n\tc\td"), None);
    assert_eq!(manifest_payload("a\tb\t\n"), None);
    assert_eq!(manifest_payload("h\tid\t../outside.jar\n"), None);
    assert_eq!(manifest_payload("h\tid\t/abs/server.jar\n"), None);
}

#[test]
fn flat_archive_is_its_own_payload() {
    let entries = read_entries(&make_zip(&["META-INF/"], &[("a.class", b"x")])).unwrap();
    assert_eq!(locate_payload(&entries, None, SERVER_JAR_REGEX), Ok(PayloadLocation::Archive));
}

#[test]
fn nested_payload_from_manifest() {
    let entries = read_entries(&nested_zip()).unwrap();
    let manifest = Some("abc\t1.21\t1.21/server-1.21.jar\n".to_string());
    assert_eq!(
        locate_payload(&entries, manifest, SERVER_JAR_REGEX),
        Ok(PayloadLocation::Nested("META-INF/versions/1.21/server-1.21.jar".to_string()))
    );
}

#[test]
fn nested_payload_by_name_when_manifest_is_malformed() {
    let entries = read_entries(&nested_zip()).unwrap();
    assert_eq!(
        locate_payload(&entries, Some("garbage".to_string()), SERVER_JAR_REGEX),
        Ok(PayloadLocation::Nested("META-INF/versions/1.21/server-1.21.jar".to_string()))
    );
    assert_eq!(
        locate_payload(&entries, None, SERVER_JAR_REGEX),
        Ok(PayloadLocation::Nested("META-INF/versions/1.21/server-1.21.jar".to_string()))
    );
}

#[test]
fn nested_spigot_payload_by_name() {
    let entries = read_entries(&make_zip(
        &["META-INF/", "META-INF/versions/"],
        &[
            ("META-INF/versions/readme.txt", b"r"),
            ("META-INF/versions/spigot-1.21.3-R0.1-SNAPSHOT.jar", b"s"),
        ],
    ))
    .unwrap();
    assert_eq!(
        resolve_by_name(&entries, SPIGOT_SERVER_JAR_REGEX),
        Ok("META-INF/versions/spigot-1.21.3-R0.1-SNAPSHOT.jar".to_string())
    );
}

#[test]
fn nested_payload_not_found() {
    let entries = read_entries(&make_zip(
        &["META-INF/", "META-INF/versions/"],
        &[("META-INF/versions/readme.txt", b"r"), ("server-1.21.jar", b"outside")],
    ))
    .unwrap();
    assert_eq!(
        locate_payload(&entries, Some("bad".to_string()), SERVER_JAR_REGEX),
        Err(PipelineError::PayloadNotFound)
    );
}

#[test]
fn invalid_pattern_is_reported() {
    let entries = read_entries(&nested_zip()).unwrap();
    assert_eq!(locate_payload(&entries, None, "(unclosed"), Err(PipelineError::InvalidPattern));
}

#[test]
fn find_file_takes_first_match() {
    let names = vec![
        "BuildTools.log.txt".to_string(),
        "spigot-1.8.8.jar".to_string(),
        "spigot-1.8.jar".to_string(),
    ];
    assert_eq!(find_file(r"spigot-(1\.\d{1,2}(?:\.\d{1,2})?)\.jar", &names), Ok(1));
    assert_eq!(find_file(r"minecraft_server", &names), Err(PipelineError::FileNotFound));
    assert_eq!(find_file(r"spigot", &Vec::new()), Err(PipelineError::FileNotFound));
    assert_eq!(find_file(r"[", &names), Err(PipelineError::InvalidPattern));
}
