use fpv::git::{GitFileStatus, GitRepoStatus};
use fpv::pane::{
    compose_preview_metadata_line, current_directory_header_line, display_path_with_home,
    entry_prefix, file_type_label, format_civil_timestamp, git_status_label_for_node, line_count,
    line_number_width, normalize_display_path, preview_title_for_state, preview_total_lines,
    right_label_for_status, symbolic_permissions,
};
use fpv::preview_doc::{ContentType, LoadState, PreviewDocument, PreviewFallbackReason};
use fpv::session::{SelectedEntryMetadata, SessionState};
use fpv::NodeType;

#[test]
fn preview_title_uses_selected_filename() {
    let mut state = SessionState::new(".".to_string());
    state.selected_metadata = SelectedEntryMetadata {
        filename: "config.toml".to_string(),
        ..SelectedEntryMetadata::default()
    };

    assert_eq!(preview_title_for_state(&state), "config.toml");
}

#[test]
fn preview_title_falls_back_when_selection_missing() {
    let mut state = SessionState::new(".".to_string());
    state.selected_metadata = SelectedEntryMetadata {
        filename: "-".to_string(),
        ..SelectedEntryMetadata::default()
    };

    assert_eq!(preview_title_for_state(&state), "Preview");
}

#[test]
fn metadata_footer_contains_required_fields() {
    let metadata = SelectedEntryMetadata {
        filename: "sample.rs".to_string(),
        size_text: "2.0 KiB".to_string(),
        permission_text: "rw-r--r--".to_string(),
        modified_text: "1700000000".to_string(),
        hidden_text: "off".to_string(),
    };

    let line = compose_preview_metadata_line(&metadata, 200);
    assert!(line.contains("Rust(.rs) | 2.0 KiB | rw-r--r-- | 1700000000"));
}

#[test]
fn metadata_footer_uses_deterministic_fallback_values() {
    let metadata = SelectedEntryMetadata::default();
    let line = compose_preview_metadata_line(&metadata, 200);

    assert!(line.contains("Unknown(none) | - | - | -"));
}

#[test]
fn metadata_footer_uses_none_extension_for_dotless_name() {
    let metadata = SelectedEntryMetadata {
        filename: "Makefile".to_string(),
        size_text: "128 B".to_string(),
        permission_text: "rw-r--r--".to_string(),
        modified_text: "12:12 25-Feb-2026".to_string(),
        hidden_text: "off".to_string(),
    };
    let line = compose_preview_metadata_line(&metadata, 200);
    assert!(line.starts_with("Unknown(none) | 128 B"));
}

#[test]
fn metadata_status_line_truncates_when_width_is_small() {
    let metadata = SelectedEntryMetadata {
        filename: "very-long-file-name.rs".to_string(),
        size_text: "1024".to_string(),
        permission_text: "644".to_string(),
        modified_text: "123456789".to_string(),
        hidden_text: "off".to_string(),
    };
    let line = compose_preview_metadata_line(&metadata, 24);
    assert_eq!(line.chars().count(), 24);
    assert!(line.ends_with('…'));
}

#[test]
fn preview_total_lines_counts_fallback_header_and_content() {
    let mut doc = PreviewDocument::default();
    doc.load_state = LoadState::Ready;
    doc.content_type = ContentType::PlainText;
    doc.content_excerpt = "a\nb".to_string();
    doc.fallback_reason = Some(PreviewFallbackReason::UnsupportedExtension);
    assert_eq!(preview_total_lines(&doc), 3);

    doc.fallback_reason = None;
    assert_eq!(preview_total_lines(&doc), 2);
}

#[test]
fn prefix_mapping_uses_requested_ascii_markers() {
    assert_eq!(entry_prefix(&NodeType::Directory), "/");
    assert_eq!(entry_prefix(&NodeType::File), "");
    assert_eq!(entry_prefix(&NodeType::Symlink), "@");
}

#[test]
fn current_directory_header_truncates_predictably() {
    let mut state = SessionState::new("/tmp/very/long/path/for/testing/header".to_string());
    state.current_path = "/tmp/very/long/path/for/testing/header".to_string();
    let line = current_directory_header_line(&state, 20);
    assert_eq!(line.chars().count(), 20);
    assert!(line.ends_with('…'));
}

#[test]
fn current_directory_header_appends_git_branch() {
    let mut state = SessionState::new("/tmp/work/fpv".to_string());
    state.current_path = "/tmp/work/fpv".to_string();
    state.git_status = Some(GitRepoStatus {
        branch: "feature/ui".to_string(),
        repo_root: "/tmp/work/fpv".to_string(),
        file_statuses: Vec::new(),
    });

    let line = current_directory_header_line(&state, 200);
    assert!(line.contains("/tmp/work/fpv"));
    assert!(line.contains("git:(feature/ui)"));
    assert!(!line.contains("changes"));
}

#[test]
fn current_directory_header_includes_change_count_when_dirty() {
    let mut state = SessionState::new("/tmp/work/fpv".to_string());
    state.current_path = "/tmp/work/fpv".to_string();
    let file_statuses = vec![
        ("a.txt".to_string(), GitFileStatus::Modified),
        ("b.txt".to_string(), GitFileStatus::Deleted),
    ];
    state.git_status = Some(GitRepoStatus {
        branch: "main".to_string(),
        repo_root: "/tmp/work/fpv".to_string(),
        file_statuses,
    });

    let line = current_directory_header_line(&state, 200);
    assert!(line.contains("git:(main)"));
    assert!(line.contains("[2 changes]"));
}

#[test]
fn home_path_is_rendered_with_tilde_prefix() {
    let home = "/tmp/fpv-home".to_string();
    let rendered = display_path_with_home("/tmp/fpv-home/projects/fpv", Some(&home));
    assert_eq!(rendered, "~/projects/fpv");
}

#[test]
fn non_home_path_stays_absolute() {
    let home = "/tmp/fpv-home".to_string();
    let rendered = display_path_with_home("/opt/work/fpv", Some(&home));
    assert_eq!(rendered, "/opt/work/fpv");
}

#[test]
fn display_path_normalization_drops_dot_components() {
    assert_eq!(normalize_display_path("/a/./b"), "/a/b");
    assert_eq!(normalize_display_path("./a"), "a");
    assert_eq!(normalize_display_path("."), ".");
    assert_eq!(normalize_display_path("/"), "/");
}

#[test]
fn git_status_lookup_resolves_repo_relative_paths() {
    let git = GitRepoStatus {
        branch: "main".to_string(),
        repo_root: "/repo".to_string(),
        file_statuses: vec![("src/main.rs".to_string(), GitFileStatus::Modified)],
    };
    assert_eq!(
        git_status_label_for_node(&git, "/repo/src/main.rs"),
        Some(GitFileStatus::Modified)
    );
    assert_eq!(git_status_label_for_node(&git, "/elsewhere/src/main.rs"), None);
}

#[test]
fn ignored_status_has_no_right_label() {
    assert_eq!(right_label_for_status(GitFileStatus::Ignored), None);
    assert_eq!(right_label_for_status(GitFileStatus::Modified), Some("M"));
}

#[test]
fn line_counting_and_number_width() {
    assert_eq!(line_count(""), 1);
    assert_eq!(line_count("a\nb\nc"), 3);
    assert_eq!(line_count("a\n"), 2);
    assert_eq!(line_number_width(7), 2);
    assert_eq!(line_number_width(120), 3);
}

#[test]
fn symbolic_permissions_render_mode_bits() {
    assert_eq!(symbolic_permissions(0o644), "rw-r--r--");
    assert_eq!(symbolic_permissions(0o754), "rwxr-xr--");
    assert_eq!(symbolic_permissions(0o000), "---------");
}

#[test]
fn file_type_labels_follow_extension_table() {
    assert_eq!(file_type_label("main.py"), "Python(.py)");
    assert_eq!(file_type_label("UPPER.RS"), "Rust(.rs)");
    assert_eq!(file_type_label("notes.xyz"), "Unknown(.xyz)");
    assert_eq!(file_type_label(".bashrc"), "Unknown(.bashrc)");
    assert_eq!(file_type_label("name."), "Unknown(none)");
}

#[test]
fn civil_timestamps_are_zero_padded() {
    assert_eq!(format_civil_timestamp(12, 5, 3, 2, 2026), "12:05 03-Feb-2026");
    assert_eq!(format_civil_timestamp(9, 30, 25, 12, 999), "09:30 25-Dec-0999");
    assert_eq!(format_civil_timestamp(0, 0, 1, 1, 1970), "00:00 01-Jan-1970");
}
