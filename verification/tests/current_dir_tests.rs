use fpv::current_dir::{truncate_for_status, CurrentDirectoryState};
use fpv::{NodeType, TreeNode};

fn node(name: &str) -> TreeNode {
    TreeNode {
        path: format!("/d/{name}"),
        name: name.to_string(),
        node_type: NodeType::File,
        depth: 0,
        expanded: false,
        readable: true,
        children_loaded: false,
    }
}

#[test]
fn truncation_is_exact_at_every_width() {
    assert_eq!(truncate_for_status("abcdef", 0), "");
    assert_eq!(truncate_for_status("abcdef", 1), "…");
    assert_eq!(truncate_for_status("abcdef", 4), "abc…");
    assert_eq!(truncate_for_status("abcdef", 6), "abcdef");
    assert_eq!(truncate_for_status("abcdef", 9), "abcdef");
}

#[test]
fn with_entries_starts_at_the_first_entry() {
    let state = CurrentDirectoryState::with_entries(
        "/d".to_string(),
        Some("/".to_string()),
        vec![node("a"), node("b")],
    );
    assert_eq!(state.selected_index, 0);
    assert_eq!(state.selected_entry().map(|n| n.name.clone()), Some("a".to_string()));
    assert!(state.last_child_path.is_none());
}

#[test]
fn snapshot_selection_revalidates_and_restores() {
    let mut state = CurrentDirectoryState::with_entries(
        "/d".to_string(),
        None,
        vec![node("a"), node("b"), node("c")],
    );
    state.selected_index = 9;
    state.revalidate_selection();
    assert_eq!(state.selected_index, 2);

    let preferred = "/d/b".to_string();
    state.restore_or_default_selection(Some(&preferred));
    assert_eq!(state.selected_index, 1);

    let missing = "/d/zzz".to_string();
    state.restore_or_default_selection(Some(&missing));
    assert_eq!(state.selected_index, 0);
}
