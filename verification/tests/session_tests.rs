use fpv::session::{LayoutRegions, SessionState};

#[test]
fn layout_regions_default_to_enabled() {
    let regions = LayoutRegions::default();
    assert!(regions.top_directory_header);
    assert!(regions.left_navigation_panel);
    assert!(regions.right_preview_panel);
    assert!(regions.preview_top_status_bar);
    assert!(regions.bottom_global_status_bar);
}

#[test]
fn preview_resize_clamps_to_minimum_widths() {
    let mut state = SessionState::new(".".to_string());
    state.tree_min_width_cols = 30;
    state.preview_min_width_cols = 20;
    state.preview_width_cols = 10;

    state.normalize_preview_width(80);
    let (tree, preview) = state.panel_widths(80);
    assert_eq!(preview, 20);
    assert_eq!(tree, 60);

    state.preview_width_cols = 70;
    state.normalize_preview_width(80);
    let (tree, preview) = state.panel_widths(80);
    assert_eq!(preview, 50);
    assert_eq!(tree, 30);
}

#[test]
fn preview_resize_step_is_applied_for_keyboard_updates() {
    let mut state = SessionState::new(".".to_string());
    state.preview_width_cols = 40;
    state.preview_resize_step_cols = 4;

    state.resize_preview_by(state.resize_step() as i16, 100);
    assert_eq!(state.panel_widths(100).1, 44);

    state.resize_preview_by(-(state.resize_step() as i16), 100);
    assert_eq!(state.panel_widths(100).1, 40);
}

#[test]
fn preview_scroll_clamps_and_pages_within_bounds() {
    let mut state = SessionState::new(".".to_string());
    state.scroll_preview_lines(50, 100, 20);
    assert_eq!(state.preview_scroll_row, 50);

    state.page_scroll_preview_down(100, 20);
    assert_eq!(state.preview_scroll_row, 70);

    state.page_scroll_preview_down(100, 20);
    assert_eq!(state.preview_scroll_row, 80);

    state.page_scroll_preview_up(100, 20);
    assert_eq!(state.preview_scroll_row, 60);

    state.scroll_preview_lines(-999, 100, 20);
    assert_eq!(state.preview_scroll_row, 0);
}

#[test]
fn preview_scroll_is_reclamped_when_content_shrinks() {
    let mut state = SessionState::new(".".to_string());
    state.scroll_preview_lines(80, 120, 20);
    assert_eq!(state.preview_scroll_row, 80);

    state.clamp_preview_scroll(30, 20);
    assert_eq!(state.preview_scroll_row, 10);
}

#[test]
fn preview_defaults_enable_line_numbers_and_disable_wrap() {
    let state = SessionState::new(".".to_string());
    assert!(state.preview_show_line_numbers);
    assert!(!state.preview_wrap_enabled);
}

#[test]
fn keyboard_resize_updates_preview_panel_width() {
    let mut state = SessionState::new(".".to_string());
    state.preview_width_cols = 40;
    state.preview_resize_step_cols = 2;

    state.resize_preview_by(state.resize_step() as i16, 100);
    assert_eq!(state.panel_widths(100), (58, 42));

    state.resize_preview_by(-(state.resize_step() as i16), 100);
    assert_eq!(state.panel_widths(100), (60, 40));
}

#[test]
fn divider_drag_updates_preview_width_with_clamp() {
    let mut state = SessionState::new(".".to_string());
    state.tree_min_width_cols = 24;
    state.preview_min_width_cols = 20;

    state.set_preview_width_from_divider(50, 100);
    assert_eq!(state.panel_widths(100), (50, 50));

    state.set_preview_width_from_divider(95, 100);
    assert_eq!(state.panel_widths(100), (80, 20));

    state.set_preview_width_from_divider(5, 100);
    assert_eq!(state.panel_widths(100), (24, 76));
}

#[test]
fn default_preview_width_leaves_a_sixth_for_the_tree() {
    let mut state = SessionState::new(".".to_string());
    state.tree_min_width_cols = 10;
    state.preview_min_width_cols = 10;
    let (tree, preview) = state.panel_widths(120);
    assert_eq!(tree + preview, 120);
    assert_eq!(preview, 100);
    assert_eq!(tree, 20);
}

#[test]
fn divider_sets_preview_width_from_column() {
    let mut state = SessionState::new(".".to_string());
    state.set_preview_width_from_divider(30, 100);
    assert_eq!(state.preview_width_cols, 70);
    assert_eq!(state.divider_column(100), 30);
}

#[test]
fn panel_widths_cover_total_and_meet_minimums() {
    let mut state = SessionState::new(".".to_string());
    state.preview_width_cols = 1;
    for total in [40u16, 41, 57, 80, 121] {
        let (tree, preview) = state.panel_widths(total);
        assert_eq!(tree + preview, total);
        assert!(tree >= state.tree_min_width_cols);
        assert!(preview >= state.preview_min_width_cols);
    }
}
