use cargo_safe_publish::clean::PackageDescriptor;
use cargo_safe_publish::content::{
    compare_entry, comparison_targets, download_url, plan_entry, unpack_archive, user_agent,
    verify_published_content, ArchiveEntry, ArchiveError, EntryPlan, LocalFile, MismatchKind,
};
use std::io::Write;

fn foo() -> PackageDescriptor {
    PackageDescriptor {
        name: "foo".to_owned(),
        version: "1.2.0".to_owned(),
        root: "/work/foo".to_owned(),
        include_patterns: None,
        exclude_patterns: None,
    }
}

fn packed(path: &str, content: &str) -> ArchiveEntry {
    ArchiveEntry { path: path.to_owned(), content: content.as_bytes().to_vec() }
}

fn present(content: &str) -> LocalFile {
    LocalFile::Present(content.as_bytes().to_vec())
}

fn crate_file(files: &[(&str, &str)]) -> Vec<u8> {
    let encoder = flate2::write::GzEncoder::new(Vec::new(), flate2::Compression::default());
    let mut builder = tar::Builder::new(encoder);
    for (path, content) in files {
        let mut header = tar::Header::new_gnu();
        header.set_size(content.len() as u64);
        header.set_mode(0o644);
        header.set_cksum();
        builder.append_data(&mut header, path, content.as_bytes()).unwrap();
    }
    builder.into_inner().unwrap().finish().unwrap()
}

fn target(plan: &EntryPlan) -> Option<String> {
    match plan {
        EntryPlan::Skip => None,
        EntryPlan::Compare(path) => Some(path.clone()),
    }
}

fn found(report: &cargo_safe_publish::content::ContentReport) -> Vec<(String, MismatchKind)> {
    report.mismatches.iter().map(|m| (m.path.clone(), m.kind)).collect()
}

#[test]
fn changed_line_is_one_mismatch() {
    let entries = vec![packed("foo-1.2.0/src/lib.rs", "fn a(){}")];
    let locals = vec![present("fn b(){}")];
    let report = verify_published_content(&foo(), &entries, &locals).unwrap();
    assert!(!report.all_matched());
    assert_eq!(found(&report), vec![("src/lib.rs".to_owned(), MismatchKind::Differs)]);
    let detail = &report.mismatches[0].detail;
    assert!(detail.contains("Local version"));
    assert!(detail.contains("Uploaded version"));
    assert_ne!(detail.as_str(), "fn b(){}");
    assert_ne!(detail.as_str(), "fn a(){}");
}

#[test]
fn only_a_difference_carries_a_rendering() {
    let entries = vec![
        packed("foo-1.2.0/a.rs", "one"),
        packed("foo-1.2.0/b.rs", "two"),
        packed("foo-1.2.0/c.rs", "three\n"),
    ];
    let locals = vec![LocalFile::Missing, LocalFile::Unreadable, present("four\n")];
    let report = verify_published_content(&foo(), &entries, &locals).unwrap();
    assert_eq!(report.mismatches.len(), 3);
    assert!(report.mismatches[0].detail.is_empty());
    assert!(report.mismatches[1].detail.is_empty());
    assert!(!report.mismatches[2].detail.is_empty());
}

#[test]
fn identical_archive_matches() {
    let body = crate_file(&[
        ("foo-1.2.0/.cargo_vcs_info.json", "{}"),
        ("foo-1.2.0/Cargo.toml", "# generated"),
        ("foo-1.2.0/Cargo.toml.orig", "[package]\nname = \"foo\"\n"),
        ("foo-1.2.0/src/lib.rs", "fn a(){}"),
    ]);
    let entries = unpack_archive(&body).unwrap();
    assert_eq!(entries.len(), 4);
    let plans = comparison_targets(&foo(), &entries).unwrap();
    let targets: Vec<Option<String>> = plans.iter().map(target).collect();
    assert_eq!(
        targets,
        vec![None, None, Some("Cargo.toml".to_owned()), Some("src/lib.rs".to_owned())]
    );
    let locals = vec![
        LocalFile::Missing,
        present("[package]\nname = \"foo\"\n"),
        present("[package]\nname = \"foo\"\n"),
        present("fn a(){}"),
    ];
    let report = verify_published_content(&foo(), &entries, &locals).unwrap();
    assert!(report.all_matched());
    assert!(report.mismatches.is_empty());
}

#[test]
fn unpack_lists_paths_and_bytes_in_order() {
    let body = crate_file(&[("foo-1.2.0/b.txt", "second"), ("foo-1.2.0/a.txt", "first")]);
    let entries = unpack_archive(&body).unwrap();
    let got: Vec<(String, Vec<u8>)> =
        entries.iter().map(|e| (e.path.clone(), e.content.clone())).collect();
    assert_eq!(
        got,
        vec![
            ("foo-1.2.0/b.txt".to_owned(), b"second".to_vec()),
            ("foo-1.2.0/a.txt".to_owned(), b"first".to_vec()),
        ]
    );
}

#[test]
fn unpack_rejects_what_is_no_archive() {
    assert_eq!(unpack_archive(&b"not an archive".to_vec()).unwrap_err(), ArchiveError::Unreadable);
    let mut plain = Vec::new();
    plain.write_all(b"plain text, not gzip").unwrap();
    assert!(unpack_archive(&plain).is_err());
}

#[test]
fn remap_source_is_compared_with_remap_target() {
    let plan = plan_entry("foo-1.2.0/Cargo.toml.orig", "foo", "1.2.0").unwrap();
    assert_eq!(target(&plan), Some("Cargo.toml".to_owned()));
    let plan = plan_entry("foo-1.2.0/nested/dir/Cargo.toml.orig", "foo", "1.2.0").unwrap();
    assert_eq!(target(&plan), Some("nested/dir/Cargo.toml".to_owned()));
}

#[test]
fn remapped_entry_is_judged_against_the_target_file() {
    let entries = vec![packed("foo-1.2.0/Cargo.toml.orig", "[package]")];
    let report = verify_published_content(&foo(), &entries, &vec![present("[package]")]).unwrap();
    assert!(report.all_matched());
    let report = verify_published_content(&foo(), &entries, &vec![present("[other]")]).unwrap();
    assert_eq!(found(&report), vec![("Cargo.toml".to_owned(), MismatchKind::Differs)]);
}

#[test]
fn generated_files_are_skipped() {
    assert_eq!(target(&plan_entry("foo-1.2.0/Cargo.toml", "foo", "1.2.0").unwrap()), None);
    assert_eq!(
        target(&plan_entry("foo-1.2.0/.cargo_vcs_info.json", "foo", "1.2.0").unwrap()),
        None
    );
    assert_eq!(target(&plan_entry("foo-1.2.0/sub/Cargo.toml", "foo", "1.2.0").unwrap()), None);
    let entries = vec![packed("foo-1.2.0/Cargo.toml", "rewritten")];
    let report = verify_published_content(&foo(), &entries, &vec![LocalFile::Missing]).unwrap();
    assert!(report.all_matched());
}

#[test]
fn ordinary_file_is_compared_with_its_own_path() {
    assert_eq!(
        target(&plan_entry("foo-1.2.0/src/lib.rs", "foo", "1.2.0").unwrap()),
        Some("src/lib.rs".to_owned())
    );
    assert_eq!(
        target(&plan_entry("foo-1.2.0/Cargo.toml.original", "foo", "1.2.0").unwrap()),
        Some("Cargo.toml.original".to_owned())
    );
}

#[test]
fn missing_local_file_is_reported_and_checking_goes_on() {
    let entries = vec![
        packed("foo-1.2.0/src/lib.rs", "fn a(){}"),
        packed("foo-1.2.0/src/extra.rs", "fn x(){}"),
        packed("foo-1.2.0/src/main.rs", "fn main(){}"),
        packed("foo-1.2.0/README.md", "hello"),
    ];
    let locals =
        vec![present("fn a(){}"), LocalFile::Missing, present("fn main() {}"), present("hello")];
    let report = verify_published_content(&foo(), &entries, &locals).unwrap();
    assert!(!report.all_matched());
    assert_eq!(
        found(&report),
        vec![
            ("src/extra.rs".to_owned(), MismatchKind::MissingLocally),
            ("src/main.rs".to_owned(), MismatchKind::Differs),
        ]
    );
}

#[test]
fn unreadable_local_file_is_a_mismatch() {
    let entries = vec![packed("foo-1.2.0/src/lib.rs", "fn a(){}")];
    let report = verify_published_content(&foo(), &entries, &vec![LocalFile::Unreadable]).unwrap();
    assert_eq!(found(&report), vec![("src/lib.rs".to_owned(), MismatchKind::Unreadable)]);
}

#[test]
fn entry_outside_the_top_directory_is_fatal() {
    let entries =
        vec![packed("foo-1.2.0/src/lib.rs", "fn a(){}"), packed("bar-1.2.0/src/lib.rs", "x")];
    let locals = vec![present("fn b(){}"), present("x")];
    assert_eq!(
        verify_published_content(&foo(), &entries, &locals).unwrap_err(),
        ArchiveError::UnexpectedPath(1)
    );
    assert_eq!(
        comparison_targets(&foo(), &entries).unwrap_err(),
        ArchiveError::UnexpectedPath(1)
    );
}

#[test]
fn unexpected_paths() {
    assert!(plan_entry("src/lib.rs", "foo", "1.2.0").is_none());
    assert!(plan_entry("foo-1.2.0", "foo", "1.2.0").is_none());
    assert!(plan_entry("foo-1.2.0/", "foo", "1.2.0").is_none());
    assert!(plan_entry("foo-1.2.0/src/", "foo", "1.2.0").is_none());
    assert!(plan_entry("foo-1.2.0x/src/lib.rs", "foo", "1.2.0").is_none());
    assert!(plan_entry("foo-1.2.0/../secret", "foo", "1.2.0").is_none());
    assert!(plan_entry("foo-1.2.0/a/../../secret", "foo", "1.2.0").is_none());
    assert!(plan_entry("foo-1.2.0/a/..", "foo", "1.2.0").is_none());
    assert!(plan_entry("foo-1.2.0/..", "foo", "1.2.0").is_none());
    assert!(plan_entry("foo-1.2.0//etc/passwd", "foo", "1.2.0").is_none());
    assert!(plan_entry("foo-1.2.0/a..b/c", "foo", "1.2.0").is_some());
    assert!(plan_entry("foo-1.2.0/...", "foo", "1.2.0").is_some());
}

#[test]
fn one_local_state_is_owed_for_each_entry() {
    let entries = vec![packed("foo-1.2.0/src/lib.rs", "fn a(){}")];
    assert_eq!(
        verify_published_content(&foo(), &entries, &vec![]).unwrap_err(),
        ArchiveError::LocalStateMissing
    );
}

#[test]
fn empty_archive_matches() {
    let entries = unpack_archive(&crate_file(&[])).unwrap();
    assert!(entries.is_empty());
    assert!(verify_published_content(&foo(), &entries, &vec![]).unwrap().all_matched());
}

#[test]
fn compare_entry_by_bytes() {
    let plan = EntryPlan::Compare("a.bin".to_owned());
    assert!(compare_entry(plan.clone(), &vec![0, 159, 255], &LocalFile::Present(vec![0, 159, 255]))
        .is_none());
    let m = compare_entry(plan.clone(), &vec![0, 159, 255], &LocalFile::Present(vec![0, 159]))
        .unwrap();
    assert_eq!((m.path.as_str(), m.kind), ("a.bin", MismatchKind::Differs));
    assert!(compare_entry(EntryPlan::Skip, &vec![1], &LocalFile::Missing).is_none());
}

#[test]
fn download_url_is_templated() {
    assert_eq!(download_url("foo", "1.2.0"), "https://crates.io/api/v1/crates/foo/1.2.0/download");
}

#[test]
fn user_agent_names_the_tool_version() {
    assert_eq!(user_agent("0.3.1"), "cargo-safe-publish/0.3.1");
}
