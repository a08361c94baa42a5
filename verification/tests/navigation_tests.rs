use fpv::navigation::{
    collapse_selected, enter_selected_directory, expand_selected, format_status_with_path,
    go_to_parent_directory, move_down, move_up, refresh_current_directory,
    toggle_hidden_visibility, ActionOutcome,
};
use fpv::session::SessionState;
use fpv::{NodeType, TreeNode};

fn node(path: &str, name: &str, node_type: NodeType, readable: bool) -> TreeNode {
    TreeNode {
        path: path.to_string(),
        name: name.to_string(),
        node_type,
        depth: 0,
        expanded: false,
        readable,
        children_loaded: false,
    }
}

fn sample_nodes() -> Vec<TreeNode> {
    vec![
        node("a", "a", NodeType::Directory, true),
        node("b", "b", NodeType::File, true),
    ]
}

#[test]
fn selection_does_not_underflow_or_overflow() {
    let mut state = SessionState::new(".".to_string());
    move_up(&mut state);
    assert_eq!(state.selected_index, 0);
    move_down(&mut state, 2);
    move_down(&mut state, 2);
    move_down(&mut state, 2);
    assert_eq!(state.selected_index, 1);
}

#[test]
fn selection_revalidates_on_smaller_list() {
    let mut state = SessionState::new(".".to_string());
    state.selected_index = 5;
    let nodes = vec![node("a", "a", NodeType::Directory, true)];
    state.revalidate_selection(&nodes);
    assert_eq!(state.selected_index, 0);
}

#[test]
fn move_selection_stays_in_range() {
    let mut state = SessionState::new(".".to_string());
    move_down(&mut state, 2);
    assert_eq!(state.selected_index, 1);
    move_down(&mut state, 2);
    assert_eq!(state.selected_index, 1);
    move_up(&mut state);
    assert_eq!(state.selected_index, 0);
}

#[test]
fn expand_and_collapse_directory() {
    let mut nodes = sample_nodes();
    expand_selected(&mut nodes, 0);
    assert!(nodes[0].expanded);
    collapse_selected(&mut nodes, 0);
    assert!(!nodes[0].expanded);
}

#[test]
fn left_at_root_keeps_path_unchanged() {
    let root = "/".to_string();
    let mut state = SessionState::new(root.clone());
    state.current_path = root.clone();
    let mut nodes = Vec::new();

    let result = go_to_parent_directory(&mut state, &mut nodes, Ok(Vec::new())).expect("go parent");
    assert_eq!(result.new_path, root);
    assert_eq!(result.outcome, ActionOutcome::NoChange);
    assert_eq!(result.message, "Already at filesystem root.");
}

#[test]
fn unreadable_directory_is_blocked() {
    let mut state = SessionState::new(".".to_string());
    let mut nodes = vec![node("private", "private", NodeType::Directory, false)];
    let result =
        enter_selected_directory(&mut state, &mut nodes, Ok(Vec::new())).expect("enter");
    assert_eq!(result.outcome, ActionOutcome::Blocked);
    assert_eq!(result.message, "Permission denied for selected directory.");
    assert_eq!(state.current_path, ".");
}

#[test]
fn entering_file_is_no_change() {
    let mut state = SessionState::new(".".to_string());
    let mut nodes = vec![node("README.md", "README.md", NodeType::File, true)];
    let result =
        enter_selected_directory(&mut state, &mut nodes, Ok(Vec::new())).expect("result");
    assert_eq!(result.new_path, state.current_path);
    assert_eq!(result.outcome, ActionOutcome::NoChange);
    assert_eq!(result.message, "Selected item is not a directory.");
}

#[test]
fn entering_empty_child_resets_listing_and_selection() {
    let mut state = SessionState::new("/tmp/base".to_string());
    state.current_path = "/tmp/base".to_string();
    let mut nodes = vec![node("/tmp/base/child", "child", NodeType::Directory, true)];

    let result =
        enter_selected_directory(&mut state, &mut nodes, Ok(Vec::new())).expect("enter");
    assert_eq!(result.outcome, ActionOutcome::Changed);
    assert_eq!(state.current_path, "/tmp/base/child");
    assert!(nodes.is_empty());
    assert_eq!(state.selected_index, 0);
    assert_eq!(state.last_child_path.as_deref(), Some("/tmp/base/child"));
}

#[test]
fn parent_restores_selection_on_exited_child() {
    let mut state = SessionState::new("/tmp/base/child".to_string());
    state.current_path = "/tmp/base/child".to_string();
    let mut nodes = Vec::new();
    let parent_listing = vec![
        node("/tmp/base/aaa", "aaa", NodeType::Directory, true),
        node("/tmp/base/child", "child", NodeType::Directory, true),
        node("/tmp/base/zzz", "zzz", NodeType::File, true),
    ];

    let result =
        go_to_parent_directory(&mut state, &mut nodes, Ok(parent_listing)).expect("go parent");
    assert_eq!(result.outcome, ActionOutcome::Changed);
    assert_eq!(state.current_path, "/tmp/base");
    assert_eq!(state.selected_index, 1);
    assert_eq!(state.selected_path, "/tmp/base/child");
}

#[test]
fn refresh_with_same_listing_keeps_selection() {
    let mut state = SessionState::new("/tmp/base".to_string());
    let mut nodes = sample_nodes();
    state.selected_index = 1;

    let result =
        refresh_current_directory(&mut state, &mut nodes, Ok(sample_nodes())).expect("refresh");
    assert_eq!(result.outcome, ActionOutcome::Changed);
    assert_eq!(state.selected_index, 1);
}

#[test]
fn refresh_listing_failure_is_handed_back() {
    let mut state = SessionState::new("/tmp/base".to_string());
    let mut nodes = sample_nodes();
    let err = refresh_current_directory(&mut state, &mut nodes, Err("denied".to_string()));
    assert_eq!(err.unwrap_err(), "denied");
    assert_eq!(nodes.len(), 2);
}

#[test]
fn toggle_hidden_flips_flag_and_relists() {
    let mut state = SessionState::new("/tmp/base".to_string());
    let mut nodes = sample_nodes();
    assert!(!state.show_hidden);

    let listing = vec![
        node("/tmp/base/.hidden", ".hidden", NodeType::File, true),
        node("/tmp/base/a", "a", NodeType::Directory, true),
    ];
    let result = toggle_hidden_visibility(&mut state, &mut nodes, Ok(listing)).expect("toggle");
    assert!(state.show_hidden);
    assert_eq!(result.action, "toggle_hidden");
    assert_eq!(result.message, "Hidden files shown.");
    assert_eq!(nodes.len(), 2);
}

#[test]
fn status_text_carries_current_path() {
    let line = format_status_with_path("Entered directory.", "/tmp/base/child");
    assert_eq!(line, "Entered directory. Path: /tmp/base/child");
}

#[test]
fn blocked_without_a_selection_names_the_cause() {
    let mut state = SessionState::new(".".to_string());
    state.selected_index = 5;
    let mut nodes: Vec<TreeNode> = Vec::new();
    let result =
        enter_selected_directory(&mut state, &mut nodes, Ok(Vec::new())).expect("enter");
    assert_eq!(result.outcome, ActionOutcome::Blocked);
    assert_eq!(result.message, "No directory selected.");
}

#[test]
fn successful_transitions_name_their_actions() {
    let mut state = SessionState::new("/tmp/base".to_string());
    let mut nodes = vec![node("/tmp/base/child", "child", NodeType::Directory, true)];
    let entered =
        enter_selected_directory(&mut state, &mut nodes, Ok(Vec::new())).expect("enter");
    assert_eq!(entered.message, "Entered directory.");

    let moved = go_to_parent_directory(&mut state, &mut nodes, Ok(Vec::new())).expect("parent");
    assert_eq!(moved.message, "Moved to parent directory.");

    let refreshed =
        refresh_current_directory(&mut state, &mut nodes, Ok(Vec::new())).expect("refresh");
    assert_eq!(refreshed.message, "Refreshed directory listing.");
}
