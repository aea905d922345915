use cargo_safe_publish::clean::{
    check_clean, exclude_is_ignored, get_git_root, relativize, scan_entries, status_scope, ChangeKind, CheckError,
    PackageDescriptor, Scope, StatusEntry,
};
use cargo_safe_publish::filter::{FilterMatcher, PatternError};

fn package(wanted: Option<Vec<&str>>, exclude: Option<Vec<&str>>) -> PackageDescriptor {
    PackageDescriptor {
        name: "foo".to_owned(),
        version: "1.2.0".to_owned(),
        root: "/work/foo".to_owned(),
        include_patterns: wanted.map(|v| v.into_iter().map(str::to_owned).collect()),
        exclude_patterns: exclude.map(|v| v.into_iter().map(str::to_owned).collect()),
    }
}

fn entry(path: &str, kind: ChangeKind) -> StatusEntry {
    StatusEntry { path: path.to_owned(), kind }
}

fn paths_of(report: &cargo_safe_publish::clean::CleanReport) -> Vec<(String, ChangeKind)> {
    report.violations.iter().map(|v| (v.path.clone(), v.kind)).collect()
}

#[test]
fn no_repository_means_clean() {
    let entries = vec![entry("src/lib.rs", ChangeKind::Modified)];
    let report = check_clean(&package(None, None), &None, &entries).unwrap();
    assert!(report.is_clean());
    assert!(report.violations.is_empty());
    assert!(!report.exclude_ignored);
}

#[test]
fn no_repository_means_clean_even_with_bad_patterns() {
    let report = check_clean(&package(Some(vec!["{unclosed"]), None), &None, &vec![]).unwrap();
    assert!(report.is_clean());
}

#[test]
fn excluded_file_is_out_of_scope() {
    let entries = vec![entry("tests/fixture.txt", ChangeKind::Modified)];
    let git = Some("/work/foo".to_owned());
    let report = check_clean(&package(None, Some(vec!["tests/*"])), &git, &entries).unwrap();
    assert!(report.is_clean());
    assert!(!report.exclude_ignored);
}

#[test]
fn exclude_keeps_what_it_does_not_match() {
    let entries = vec![
        entry("tests/fixture.txt", ChangeKind::Modified),
        entry("src/lib.rs", ChangeKind::Modified),
    ];
    let git = Some("/work/foo".to_owned());
    let report = check_clean(&package(None, Some(vec!["tests/*"])), &git, &entries).unwrap();
    assert_eq!(paths_of(&report), vec![("src/lib.rs".to_owned(), ChangeKind::Modified)]);
}

#[test]
fn untracked_file_without_filters_is_a_violation() {
    let entries = vec![entry("scratch.tmp", ChangeKind::Untracked)];
    let git = Some("/work/foo".to_owned());
    let report = check_clean(&package(None, None), &git, &entries).unwrap();
    assert!(!report.is_clean());
    assert_eq!(paths_of(&report), vec![("scratch.tmp".to_owned(), ChangeKind::Untracked)]);
}

#[test]
fn include_drops_what_it_does_not_match() {
    let entries = vec![
        entry("README.md", ChangeKind::Modified),
        entry("src/lib.rs", ChangeKind::Modified),
        entry("src/deep/mod.rs", ChangeKind::Untracked),
        entry("notes.txt", ChangeKind::Untracked),
    ];
    let git = Some("/work/foo".to_owned());
    let report = check_clean(&package(Some(vec!["src/**"]), None), &git, &entries).unwrap();
    assert_eq!(
        paths_of(&report),
        vec![
            ("src/lib.rs".to_owned(), ChangeKind::Modified),
            ("src/deep/mod.rs".to_owned(), ChangeKind::Untracked),
        ]
    );
}

#[test]
fn submodule_modification_bypasses_the_filter() {
    let entries = vec![
        entry("vendor/dep", ChangeKind::SubmoduleModified),
        entry("vendor/readme", ChangeKind::Modified),
    ];
    let git = Some("/work/foo".to_owned());
    let report = check_clean(&package(Some(vec!["src/**"]), None), &git, &entries).unwrap();
    assert_eq!(paths_of(&report), vec![("vendor/dep".to_owned(), ChangeKind::SubmoduleModified)]);
    let report = check_clean(&package(None, Some(vec!["vendor"])), &git, &entries).unwrap();
    assert_eq!(paths_of(&report), vec![("vendor/dep".to_owned(), ChangeKind::SubmoduleModified)]);
}

#[test]
fn exclude_is_ignored_beside_include() {
    let entries = vec![
        entry("src/lib.rs", ChangeKind::Modified),
        entry("src/generated.rs", ChangeKind::Modified),
        entry("docs/guide.md", ChangeKind::Added),
    ];
    let git = Some("/work/foo".to_owned());
    let both = check_clean(
        &package(Some(vec!["src/**"]), Some(vec!["src/generated.rs"])),
        &git,
        &entries,
    )
    .unwrap();
    let only = check_clean(&package(Some(vec!["src/**"]), None), &git, &entries).unwrap();
    assert_eq!(paths_of(&both), paths_of(&only));
    assert_eq!(
        paths_of(&both),
        vec![
            ("src/lib.rs".to_owned(), ChangeKind::Modified),
            ("src/generated.rs".to_owned(), ChangeKind::Modified),
        ]
    );
    assert!(both.exclude_ignored);
    assert!(!only.exclude_ignored);
}

#[test]
fn malformed_exclude_is_not_compiled_beside_include() {
    let git = Some("/work/foo".to_owned());
    let report =
        check_clean(&package(Some(vec!["src/**"]), Some(vec!["{unclosed"])), &git, &vec![]);
    assert!(report.unwrap().exclude_ignored);
}

#[test]
fn empty_include_list_admits_nothing() {
    let entries = vec![entry("src/lib.rs", ChangeKind::Modified)];
    let git = Some("/work/foo".to_owned());
    let report = check_clean(&package(Some(vec![]), None), &git, &entries).unwrap();
    assert!(report.is_clean());
}

#[test]
fn empty_exclude_list_admits_everything() {
    let entries = vec![entry("src/lib.rs", ChangeKind::Modified)];
    let git = Some("/work/foo".to_owned());
    let report = check_clean(&package(None, Some(vec![])), &git, &entries).unwrap();
    assert_eq!(paths_of(&report), vec![("src/lib.rs".to_owned(), ChangeKind::Modified)]);
}

#[test]
fn negated_pattern_brings_a_path_back() {
    let entries = vec![
        entry("tests/data.bin", ChangeKind::Modified),
        entry("tests/keep.rs", ChangeKind::Modified),
    ];
    let git = Some("/work/foo".to_owned());
    let report =
        check_clean(&package(None, Some(vec!["tests/*", "!tests/keep.rs"])), &git, &entries)
            .unwrap();
    assert_eq!(paths_of(&report), vec![("tests/keep.rs".to_owned(), ChangeKind::Modified)]);
}

#[test]
fn parent_directory_match_covers_the_file() {
    let entries = vec![entry("target/debug/build.log", ChangeKind::Untracked)];
    let git = Some("/work/foo".to_owned());
    let report = check_clean(&package(None, Some(vec!["/target"])), &git, &entries).unwrap();
    assert!(report.is_clean());
}

#[test]
fn package_in_subdirectory_is_relativized() {
    let mut descriptor = package(None, Some(vec!["tests/*"]));
    descriptor.root = "/work/crates/foo".to_owned();
    let entries = vec![
        entry("crates/foo/src/lib.rs", ChangeKind::Modified),
        entry("crates/foo/tests/fixture.txt", ChangeKind::Modified),
    ];
    let git = Some("/work".to_owned());
    let report = check_clean(&descriptor, &git, &entries).unwrap();
    assert_eq!(paths_of(&report), vec![("src/lib.rs".to_owned(), ChangeKind::Modified)]);
}

#[test]
fn entry_outside_the_package_is_an_error() {
    let mut descriptor = package(None, None);
    descriptor.root = "/work/crates/foo".to_owned();
    let entries = vec![
        entry("crates/foo/src/lib.rs", ChangeKind::Modified),
        entry("crates/bar/src/lib.rs", ChangeKind::Modified),
    ];
    let git = Some("/work".to_owned());
    assert_eq!(check_clean(&descriptor, &git, &entries).unwrap_err(), CheckError::OutsideScope(1));
}

#[test]
fn malformed_pattern_is_fatal() {
    let git = Some("/work/foo".to_owned());
    let res = check_clean(&package(Some(vec!["src/**", "{unclosed"]), None), &git, &vec![]);
    assert_eq!(res.unwrap_err(), CheckError::BadPattern(1));
    let res = check_clean(&package(None, Some(vec!["{unclosed"])), &git, &vec![]);
    assert_eq!(res.unwrap_err(), CheckError::BadPattern(0));
}

#[test]
fn rooted_entry_path_is_an_error_under_a_filter() {
    let git = Some("/work/foo".to_owned());
    let entries =
        vec![entry("src/lib.rs", ChangeKind::Modified), entry("/etc/passwd", ChangeKind::Modified)];
    let res = check_clean(&package(Some(vec!["src/**"]), None), &git, &entries);
    assert_eq!(res.unwrap_err(), CheckError::UnusablePath(1));
    let res = check_clean(&package(None, None), &git, &entries).unwrap();
    assert_eq!(res.violations.len(), 2);
}

#[test]
fn package_outside_the_repository_is_an_error() {
    let git = Some("/elsewhere".to_owned());
    let res = check_clean(&package(None, None), &git, &vec![]);
    assert_eq!(res.unwrap_err(), CheckError::RootOutsideRepository);
}

#[test]
fn status_scope_of_equal_roots_is_empty() {
    assert_eq!(status_scope("/work/foo", "/work/foo"), Ok(None));
}

#[test]
fn status_scope_of_nested_package() {
    assert_eq!(status_scope("/work/crates/foo", "/work"), Ok(Some("crates/foo".to_owned())));
    assert_eq!(status_scope("/work", "/"), Ok(Some("work".to_owned())));
}

#[test]
fn status_scope_rejects_a_sibling() {
    assert_eq!(status_scope("/workshop/foo", "/work"), Err(CheckError::RootOutsideRepository));
    assert_eq!(status_scope("/work", "/work/foo"), Err(CheckError::RootOutsideRepository));
}

#[test]
fn relativize_at_repository_root_keeps_the_path() {
    assert_eq!(relativize("src/lib.rs", &None), Some("src/lib.rs".to_owned()));
}

#[test]
fn relativize_below_ancestor_strips_prefix_and_separator() {
    let sub = Some("crates/foo".to_owned());
    assert_eq!(relativize("crates/foo/src/lib.rs", &sub), Some("src/lib.rs".to_owned()));
    assert_eq!(relativize("crates/foobar/src/lib.rs", &sub), None);
    assert_eq!(relativize("crates/foo", &sub), None);
    assert_eq!(relativize("src/lib.rs", &sub), None);
}

#[test]
fn git_root_is_the_nearest_marked_ancestor() {
    assert_eq!(get_git_root("/a/b/c", &vec![true, false, true]), Some("/a/b/c".to_owned()));
    assert_eq!(get_git_root("/a/b/c", &vec![false, false, true, true]), Some("/a".to_owned()));
    assert_eq!(get_git_root("/a/b/c", &vec![false, true]), Some("/a/b".to_owned()));
    assert_eq!(get_git_root("/a/b/c", &vec![false, false, false, true]), Some("/".to_owned()));
}

#[test]
fn git_root_is_absent_without_markers() {
    assert_eq!(get_git_root("/a/b/c", &vec![false, false, false, false]), None);
    assert_eq!(get_git_root("/a/b/c", &vec![]), None);
    assert_eq!(get_git_root("/a", &vec![false, false, false, true]), None);
}

#[test]
fn matcher_accepts_what_stays_relative() {
    let m = FilterMatcher::new("/work/foo", &vec!["*.log".to_owned()]).ok().unwrap();
    assert!(m.accepts("src/lib.rs"));
    assert!(m.accepts(""));
    assert!(m.accepts("./x"));
    assert!(m.accepts("src//lib.rs"));
    assert!(m.accepts("/work/foo/a.log"));
    assert!(m.accepts("/work/foo"));
    assert!(m.accepts("/work/foobar/x"));
    assert!(!m.accepts("/etc/passwd"));
    assert!(!m.accepts(".//x"));
    assert!(!m.accepts("/work/foo//x"));
    assert!(m.ignores("/work/foo/a.log"));
    assert!(m.ignores("src//trace.log"));
    assert!(!m.ignores("/work/foo"));
    assert!(!m.ignores("/work/foobar/x"));
}

#[test]
fn matcher_without_patterns_accepts_every_path() {
    let m = FilterMatcher::new("/work/foo", &vec![]).ok().unwrap();
    assert!(m.accepts("/etc/passwd"));
    assert!(!m.ignores("/etc/passwd"));
    let dot = FilterMatcher::new(".", &vec!["*.log".to_owned()]).ok().unwrap();
    assert!(dot.accepts("./a.log"));
    assert!(dot.accepts(".hidden/a.log"));
    assert!(!dot.accepts("/a.log"));
    assert!(dot.ignores(".hidden/a.log"));
}

#[test]
fn doubled_separator_in_a_status_path_is_judged() {
    let entries = vec![
        entry("src//lib.rs", ChangeKind::Modified),
        entry("/work/foo/tests/fixture.txt", ChangeKind::Modified),
        entry("docs//guide.md", ChangeKind::Modified),
    ];
    let git = Some("/work/foo".to_owned());
    let report = check_clean(&package(None, Some(vec!["tests/*", "docs"])), &git, &entries).unwrap();
    assert_eq!(paths_of(&report), vec![("src//lib.rs".to_owned(), ChangeKind::Modified)]);
    let report = check_clean(&package(None, Some(vec![])), &git, &vec![entry("/x", ChangeKind::Other)]);
    assert_eq!(paths_of(&report.unwrap()), vec![("/x".to_owned(), ChangeKind::Other)]);
}

#[test]
fn matcher_reports_the_first_bad_pattern() {
    let lines = vec!["ok".to_owned(), "[z-a]".to_owned(), "{x".to_owned()];
    match FilterMatcher::new("/work/foo", &lines) {
        Err(e) => assert_eq!(e, PatternError::BadPattern(1)),
        Ok(_) => panic!("a malformed pattern was accepted"),
    }
}

#[test]
fn matcher_matches_by_gitignore_rules() {
    let lines = vec!["*.log".to_owned(), "/build".to_owned(), "# comment".to_owned()];
    let m = FilterMatcher::new("/work/foo", &lines).ok().unwrap();
    assert!(m.ignores("deep/down/trace.log"));
    assert!(m.ignores("build/out.o"));
    assert!(!m.ignores("src/build/out.o"));
    assert!(!m.ignores("src/main.rs"));
    assert!(!m.ignores("# comment"));
}

#[test]
fn scan_keeps_the_order_of_the_status_query() {
    let scope = Scope::build(&package(None, None)).ok().unwrap();
    assert!(scope.is_unfiltered());
    let entries = vec![
        entry("z.rs", ChangeKind::Other),
        entry("a.rs", ChangeKind::Added),
        entry("m.rs", ChangeKind::Untracked),
    ];
    let kept = scan_entries(&scope, &None, &entries).unwrap();
    let got: Vec<(String, ChangeKind)> = kept.iter().map(|v| (v.path.clone(), v.kind)).collect();
    assert_eq!(
        got,
        vec![
            ("z.rs".to_owned(), ChangeKind::Other),
            ("a.rs".to_owned(), ChangeKind::Added),
            ("m.rs".to_owned(), ChangeKind::Untracked),
        ]
    );
}

#[test]
fn scope_admits_by_the_authoritative_list() {
    let only = Scope::build(&package(Some(vec!["src/**"]), Some(vec!["src/**"]))).ok().unwrap();
    assert!(only.admits("src/lib.rs"));
    assert!(!only.admits("README.md"));
    let except = Scope::build(&package(None, Some(vec!["src/**"]))).ok().unwrap();
    assert!(!except.admits("src/lib.rs"));
    assert!(except.admits("README.md"));
}

#[test]
fn warning_is_owed_exactly_when_both_lists_are_set() {
    assert!(exclude_is_ignored(&package(Some(vec!["src/**"]), Some(vec!["{unclosed"]))));
    assert!(exclude_is_ignored(&package(Some(vec![]), Some(vec![]))));
    assert!(!exclude_is_ignored(&package(Some(vec!["src/**"]), None)));
    assert!(!exclude_is_ignored(&package(None, Some(vec!["tests/*"]))));
    assert!(!exclude_is_ignored(&package(None, None)));
}

#[test]
fn warning_is_owed_even_when_the_check_fails() {
    let descriptor = package(Some(vec!["{unclosed"]), Some(vec!["tests/*"]));
    let git = Some("/work/foo".to_owned());
    assert!(exclude_is_ignored(&descriptor));
    assert_eq!(check_clean(&descriptor, &git, &vec![]).unwrap_err(), CheckError::BadPattern(0));
}

#[test]
fn comments_and_blank_lines_are_no_patterns() {
    let entries = vec![entry("src/lib.rs", ChangeKind::Modified)];
    let git = Some("/work/foo".to_owned());
    let report =
        check_clean(&package(Some(vec!["# src/**", "", "   "]), None), &git, &entries).unwrap();
    assert!(report.is_clean());
    let report =
        check_clean(&package(None, Some(vec!["# src/**", "", "   "])), &git, &entries).unwrap();
    assert_eq!(paths_of(&report), vec![("src/lib.rs".to_owned(), ChangeKind::Modified)]);
}

#[test]
fn trailing_white_space_is_no_part_of_a_pattern() {
    let entries = vec![
        entry("tests/fixture.txt", ChangeKind::Modified),
        entry("src/lib.rs", ChangeKind::Modified),
    ];
    let git = Some("/work/foo".to_owned());
    let report = check_clean(&package(None, Some(vec!["tests/*  \t"])), &git, &entries).unwrap();
    assert_eq!(paths_of(&report), vec![("src/lib.rs".to_owned(), ChangeKind::Modified)]);
}

#[test]
fn root_with_leading_dot_slash_is_accepted() {
    let mut descriptor = package(None, Some(vec!["/target"]));
    descriptor.root = "./pkg".to_owned();
    let entries = vec![
        entry("target/debug/out", ChangeKind::Untracked),
        entry("src/target/out", ChangeKind::Untracked),
    ];
    let git = Some("./pkg".to_owned());
    let report = check_clean(&descriptor, &git, &entries).unwrap();
    assert_eq!(paths_of(&report), vec![("src/target/out".to_owned(), ChangeKind::Untracked)]);
}

#[test]
fn matcher_without_patterns_ignores_nothing() {
    let m = FilterMatcher::new("/work/foo", &vec![]).ok().unwrap();
    assert!(!m.ignores("src/lib.rs"));
    let m = FilterMatcher::new("/work/foo", &vec!["#x".to_owned(), " ".to_owned()]).ok().unwrap();
    assert!(!m.ignores("#x"));
    assert!(!m.ignores("src/lib.rs"));
}
