use fpv::actions::Action;
use fpv::engine::{
    apply_key_action, apply_mouse_resize, can_enter_fullscreen_preview, tree_index_for_click,
    KeyStep, MouseKind,
};
use fpv::session::{FocusPane, SessionState};
use fpv::{NodeType, TreeNode};

fn node(name: &str, node_type: NodeType) -> TreeNode {
    TreeNode {
        path: format!("/d/{name}"),
        name: name.to_string(),
        node_type,
        depth: 0,
        expanded: false,
        readable: true,
        children_loaded: false,
    }
}

#[test]
fn keyboard_navigation_state_flow() {
    let mut state = SessionState::new(".".to_string());
    fpv::navigation::move_down(&mut state, 3);
    fpv::navigation::move_down(&mut state, 3);
    assert_eq!(state.selected_index, 2);
    fpv::navigation::move_up(&mut state);
    assert_eq!(state.selected_index, 1);

    assert_eq!(state.focus_pane, FocusPane::Tree);
    fpv::navigation::switch_focus(&mut state);
    assert_eq!(state.focus_pane, FocusPane::Preview);
}

#[test]
fn key_actions_drive_selection_and_quit() {
    let mut state = SessionState::new("/d".to_string());
    let nodes = vec![node("a", NodeType::Directory), node("b", NodeType::File)];

    let down = apply_key_action(&mut state, &nodes, Action::MoveDown, 10, 5, 100);
    assert_eq!(down.step, KeyStep::Done);
    assert!(down.refresh_preview);
    assert_eq!(state.selected_index, 1);

    let up = apply_key_action(&mut state, &nodes, Action::MoveUp, 10, 5, 100);
    assert_eq!(up.step, KeyStep::Done);
    assert_eq!(state.selected_index, 0);

    let expand = apply_key_action(&mut state, &nodes, Action::Expand, 10, 5, 100);
    assert_eq!(expand.step, KeyStep::NeedsEnter);

    let quit = apply_key_action(&mut state, &nodes, Action::Quit, 10, 5, 100);
    assert!(quit.quit);
}

#[test]
fn help_overlay_blocks_navigation_until_toggled() {
    let mut state = SessionState::new("/d".to_string());
    let nodes = vec![node("a", NodeType::Directory)];

    let open = apply_key_action(&mut state, &nodes, Action::ToggleHelp, 10, 5, 100);
    assert_eq!(open.step, KeyStep::Done);
    assert!(state.help_overlay_visible);

    let blocked = apply_key_action(&mut state, &nodes, Action::MoveDown, 10, 5, 100);
    assert_eq!(blocked.step, KeyStep::Done);
    assert_eq!(state.selected_index, 0);
    let no_quit = apply_key_action(&mut state, &nodes, Action::Quit, 10, 5, 100);
    assert!(!no_quit.quit);

    let close = apply_key_action(&mut state, &nodes, Action::ExitFullscreenPreview, 10, 5, 100);
    assert_eq!(close.step, KeyStep::Done);
    assert!(!state.help_overlay_visible);
}

#[test]
fn open_on_a_file_enters_fullscreen_preview() {
    let mut state = SessionState::new("/d".to_string());
    let nodes = vec![node("b.txt", NodeType::File)];
    assert!(can_enter_fullscreen_preview(&state, &nodes));

    let open = apply_key_action(&mut state, &nodes, Action::Open, 10, 5, 100);
    assert_eq!(open.step, KeyStep::Done);
    assert!(state.preview_fullscreen);
    assert_eq!(state.focus_pane, FocusPane::Preview);

    let esc = apply_key_action(&mut state, &nodes, Action::ExitFullscreenPreview, 10, 5, 100);
    assert_eq!(esc.step, KeyStep::Done);
    assert!(!state.preview_fullscreen);
}

#[test]
fn open_on_a_directory_requests_a_listing() {
    let mut state = SessionState::new("/d".to_string());
    let nodes = vec![node("a", NodeType::Directory)];
    let open = apply_key_action(&mut state, &nodes, Action::Open, 10, 5, 100);
    assert_eq!(open.step, KeyStep::NeedsEnter);
}

#[test]
fn collapse_at_root_is_a_no_op() {
    let mut state = SessionState::new("/".to_string());
    let nodes = Vec::new();
    let collapse = apply_key_action(&mut state, &nodes, Action::Collapse, 10, 5, 100);
    assert_eq!(collapse.step, KeyStep::Done);
    assert_eq!(state.current_path, "/");
}

#[test]
fn fullscreen_scrolling_respects_bounds() {
    let mut state = SessionState::new("/d".to_string());
    state.preview_fullscreen = true;
    let nodes = Vec::new();

    for _ in 0..200 {
        apply_key_action(&mut state, &nodes, Action::MoveDown, 100, 20, 100);
    }
    assert_eq!(state.preview_scroll_row, 80);

    apply_key_action(&mut state, &nodes, Action::MoveUp, 100, 20, 100);
    assert_eq!(state.preview_scroll_row, 79);
}

#[test]
fn resize_actions_step_the_preview_width() {
    let mut state = SessionState::new("/d".to_string());
    state.preview_width_cols = 40;
    state.preview_resize_step_cols = 2;
    let nodes = Vec::new();

    let wider = apply_key_action(&mut state, &nodes, Action::ResizePreviewWider, 10, 5, 100);
    assert!(wider.refresh_preview);
    assert_eq!(state.preview_width_cols, 42);

    let narrower =
        apply_key_action(&mut state, &nodes, Action::ResizePreviewNarrower, 10, 5, 100);
    assert!(narrower.refresh_preview);
    assert_eq!(state.preview_width_cols, 40);
}

#[test]
fn mouse_divider_drag_tracks_the_pointer() {
    let mut state = SessionState::new("/d".to_string());
    let divider = state.divider_column(100);
    let grabbed = apply_mouse_resize(&mut state, MouseKind::LeftDown, divider, 100);
    assert!(state.divider_drag_active);
    assert!(grabbed);
    assert_eq!(state.preview_width_cols, 80);

    let dragged = apply_mouse_resize(&mut state, MouseKind::LeftDrag, 60, 100);
    assert!(dragged);
    assert_eq!(state.preview_width_cols, 40);

    let released = apply_mouse_resize(&mut state, MouseKind::LeftUp, 95, 100);
    assert!(!state.divider_drag_active);
    assert!(released);
    assert_eq!(state.preview_width_cols, 20);
}

#[test]
fn click_outside_or_on_border_has_no_index() {
    let state = SessionState::new(".".to_string());
    assert!(tree_index_for_click(&state, 1, 1, 120, 40, 10).is_none());
}

#[test]
fn click_inside_tree_panel_selects_a_row() {
    let state = SessionState::new(".".to_string());
    assert_eq!(tree_index_for_click(&state, 1, 2, 120, 40, 10), Some(0));
    assert_eq!(tree_index_for_click(&state, 1, 5, 120, 40, 10), Some(3));
}
