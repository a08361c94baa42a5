use fpv::git::{parse_branch_name, parse_porcelain_status, GitFileStatus, GitRepoStatus};

fn status_of(parsed: &GitRepoStatus, path: &str) -> Option<GitFileStatus> {
    parsed
        .file_statuses
        .iter()
        .find(|(p, _)| p == path)
        .map(|(_, s)| *s)
}

#[test]
fn parses_branch_and_per_file_statuses() {
    let input = "## main...origin/main [ahead 1]\n M src/lib.rs\nD  old.txt\nR  old-name.txt -> new-name.txt\nA  added.txt\nUU conflict.txt\n?? tests/new_test.rs\n!! target/\n";
    let parsed = parse_porcelain_status(input, "/tmp/repo".to_string()).expect("parsed");

    assert_eq!(parsed.branch, "main");
    assert_eq!(parsed.repo_root, "/tmp/repo");
    assert_eq!(status_of(&parsed, "src/lib.rs"), Some(GitFileStatus::Modified));
    assert_eq!(status_of(&parsed, "old.txt"), Some(GitFileStatus::Deleted));
    assert_eq!(status_of(&parsed, "new-name.txt"), Some(GitFileStatus::Renamed));
    assert_eq!(status_of(&parsed, "added.txt"), Some(GitFileStatus::Added));
    assert_eq!(status_of(&parsed, "conflict.txt"), Some(GitFileStatus::Conflicted));
    assert_eq!(status_of(&parsed, "tests/new_test.rs"), Some(GitFileStatus::Untracked));
    assert_eq!(status_of(&parsed, "target/"), Some(GitFileStatus::Ignored));
    assert_eq!(parsed.change_count(), 6);
}

#[test]
fn labels_match_expected_short_codes() {
    assert_eq!(GitFileStatus::Added.label(), "A");
    assert_eq!(GitFileStatus::Modified.label(), "M");
    assert_eq!(GitFileStatus::Deleted.label(), "D");
    assert_eq!(GitFileStatus::Renamed.label(), "R");
    assert_eq!(GitFileStatus::Copied.label(), "C");
    assert_eq!(GitFileStatus::Untracked.label(), "?");
    assert_eq!(GitFileStatus::Conflicted.label(), "U");
    assert_eq!(GitFileStatus::Ignored.label(), "!");
}

#[test]
fn parses_no_commits_yet_branch_name() {
    let input = "## No commits yet on main\n?? readme.md\n";
    let parsed = parse_porcelain_status(input, "/tmp/repo".to_string()).expect("parsed");
    assert_eq!(parsed.branch, "main");
}

#[test]
fn status_header_parses_branch_with_upstream_and_count() {
    let input = "## main...origin/main [ahead 1]\nM  a.txt\n?? b.txt\n!! c/\n";
    let parsed = parse_porcelain_status(input, "/tmp/repo".to_string()).expect("parsed");
    assert_eq!(parsed.branch, "main");
    assert_eq!(status_of(&parsed, "a.txt"), Some(GitFileStatus::Modified));
    assert_eq!(status_of(&parsed, "b.txt"), Some(GitFileStatus::Untracked));
    assert_eq!(status_of(&parsed, "c/"), Some(GitFileStatus::Ignored));
    assert_eq!(parsed.change_count(), 2);
}

#[test]
fn detached_head_reads_as_detached() {
    assert_eq!(parse_branch_name("## HEAD (no branch)"), Some("detached".to_string()));
}

#[test]
fn branch_name_stops_at_space_without_upstream() {
    assert_eq!(parse_branch_name("## feature/x and trailing"), Some("feature/x".to_string()));
}

#[test]
fn text_without_header_does_not_parse() {
    assert!(parse_porcelain_status("M  a.txt\n", "/tmp/repo".to_string()).is_none());
    assert!(parse_porcelain_status("", "/tmp/repo".to_string()).is_none());
}

#[test]
fn conflict_codes_take_precedence() {
    let input = "## main\nAA both.txt\nDD gone.txt\nUM mixed.txt\nRM moved.txt -> kept.txt\n";
    let parsed = parse_porcelain_status(input, "/r".to_string()).expect("parsed");
    assert_eq!(status_of(&parsed, "both.txt"), Some(GitFileStatus::Conflicted));
    assert_eq!(status_of(&parsed, "gone.txt"), Some(GitFileStatus::Conflicted));
    assert_eq!(status_of(&parsed, "mixed.txt"), Some(GitFileStatus::Conflicted));
    assert_eq!(status_of(&parsed, "kept.txt"), Some(GitFileStatus::Renamed));
}

#[test]
fn later_lines_override_earlier_ones_for_same_path() {
    let input = "## main\nM  a.txt\nD  a.txt\n";
    let parsed = parse_porcelain_status(input, "/r".to_string()).expect("parsed");
    assert_eq!(status_of(&parsed, "a.txt"), Some(GitFileStatus::Deleted));
    assert_eq!(parsed.file_statuses.len(), 1);
}

#[test]
fn copied_and_type_changed_codes_classify() {
    let input = "## main\nC  copy.txt\nT  typed.txt\n";
    let parsed = parse_porcelain_status(input, "/r".to_string()).expect("parsed");
    assert_eq!(status_of(&parsed, "copy.txt"), Some(GitFileStatus::Copied));
    assert_eq!(status_of(&parsed, "typed.txt"), Some(GitFileStatus::Modified));
}
