//! The navigation engine's dispatcher: one resolved action against the
//! session state yields at most one transition, or names the directory
//! enumeration the caller must perform first.
use vstd::prelude::*;

use crate::actions::Action;
use crate::listing::spec_parent_path;
use crate::navigation::move_down;
use crate::navigation::move_up;
use crate::node::NodeType;
use crate::node::TreeNode;
use crate::session::selection_ok;
use crate::session::spec_max_scroll_row;
use crate::session::spec_scrolled_row;
use crate::session::FocusPane;
use crate::session::SessionState;

verus! {

/// What the dispatcher decided: the action completed, or the caller must
/// enumerate a directory and hand the listing to the named navigation
/// function.
#[derive(Debug, Clone, Copy, PartialEq, Eq, Structural)]
pub enum KeyStep {
    Done,
    NeedsEnter,
    NeedsParent,
    NeedsToggleHidden,
}

/// The dispatcher's verdict on one key action.
#[derive(Debug, Clone, Copy, PartialEq, Eq, Structural)]
pub struct KeyOutcome {
    pub step: KeyStep,
    pub quit: bool,
    pub refresh_preview: bool,
}

/// Whether the selected entry is a plain file, so fullscreen preview may
/// open on it.
pub open spec fn spec_can_enter_fullscreen(state: SessionState, nodes: Seq<TreeNode>) -> bool {
    state.selected_index < nodes.len() && nodes[state.selected_index as int].node_type is File
}

/// Whether the selected entry is a plain file.
pub fn can_enter_fullscreen_preview(state: &SessionState, nodes: &Vec<TreeNode>) -> (r: bool)
    ensures
        r == spec_can_enter_fullscreen(*state, nodes@),
{
    state.selected_index < nodes.len() && matches!(
        nodes[state.selected_index].node_type,
        NodeType::File,
    )
}

/// The preview scroll lands where a plain scroll of `delta` lines lands.
pub open spec fn scrolled(state: SessionState, delta: int, total: int, rows: int) -> SessionState {
    SessionState {
        preview_scroll_row: spec_scrolled_row(
            state.preview_scroll_row as nat,
            delta,
            total as nat,
            rows as nat,
        ) as usize,
        ..state
    }
}

/// One viewport page, at least one row.
pub open spec fn spec_page(rows: int) -> int {
    if rows >= 1 {
        rows
    } else {
        1
    }
}

/// Dispatch one resolved key action against the session.
///
/// The entry list is only read here: actions that replace it are answered
/// with the enumeration the caller must perform (`NeedsEnter`,
/// `NeedsParent`, `NeedsToggleHidden`), to be handed to the corresponding
/// navigation function. While the help overlay is visible every action but
/// its own toggle and the overlay-closing escape is ignored. A valid
/// selection stays valid, and an admissible preview scroll row stays
/// admissible.
pub fn apply_key_action(
    state: &mut SessionState,
    nodes: &Vec<TreeNode>,
    action: Action,
    preview_total_lines: usize,
    preview_viewport_rows: usize,
    main_width: u16,
) -> (r: KeyOutcome)
    ensures
        r.quit == (action is Quit && !old(state).help_overlay_visible),
        (r.step != KeyStep::Done ==> *final(state) == *old(state) && !r.quit),
        (r.step == KeyStep::NeedsEnter ==> !old(state).help_overlay_visible && !old(
            state,
        ).preview_fullscreen),
        (r.step == KeyStep::NeedsParent ==> !old(state).help_overlay_visible && !old(
            state,
        ).preview_fullscreen && !(spec_parent_path(old(state).current_path@) is None)),
        (r.step == KeyStep::NeedsToggleHidden ==> !old(state).help_overlay_visible && !old(
            state,
        ).preview_fullscreen),
        selection_ok(old(state).selected_index as int, nodes@.len() as int) ==> selection_ok(
            final(state).selected_index as int,
            nodes@.len() as int,
        ),
        old(state).preview_scroll_row as nat <= spec_max_scroll_row(
            preview_total_lines as nat,
            preview_viewport_rows as nat,
        ) ==> final(state).preview_scroll_row as nat <= spec_max_scroll_row(
            preview_total_lines as nat,
            preview_viewport_rows as nat,
        ),
        ({
            let s = *old(state);
            let total = preview_total_lines as int;
            let rows = preview_viewport_rows as int;
            match action {
                Action::ToggleHelp => *final(state) == (SessionState {
                    help_overlay_visible: !s.help_overlay_visible,
                    ..s
                }) && r.step == KeyStep::Done && !r.refresh_preview,
                Action::ExitFullscreenPreview => *final(state) == (if s.help_overlay_visible {
                    SessionState { help_overlay_visible: false, ..s }
                } else if s.preview_fullscreen {
                    SessionState { preview_fullscreen: false, ..s }
                } else {
                    s
                }) && r.step == KeyStep::Done && !r.refresh_preview,
                _ => {
                    if s.help_overlay_visible {
                        *final(state) == s && r.step == KeyStep::Done && !r.refresh_preview
                    } else {
                        match action {
                            Action::MoveUp => if s.preview_fullscreen {
                                *final(state) == scrolled(s, -1, total, rows) && r.step
                                    == KeyStep::Done && !r.refresh_preview
                            } else {
                                final(state).selected_index == (if s.selected_index > 0 {
                                    s.selected_index - 1
                                } else {
                                    0int
                                }) && final(state).preview_scroll_row == 0 && r.step
                                    == KeyStep::Done && r.refresh_preview
                            },
                            Action::MoveDown => if s.preview_fullscreen {
                                *final(state) == scrolled(s, 1, total, rows) && r.step
                                    == KeyStep::Done && !r.refresh_preview
                            } else {
                                final(state).selected_index == (if s.selected_index + 1
                                    < nodes@.len() {
                                    s.selected_index + 1
                                } else {
                                    s.selected_index as int
                                }) && final(state).preview_scroll_row == 0 && r.step
                                    == KeyStep::Done && r.refresh_preview
                            },
                            Action::Expand => if !s.preview_fullscreen {
                                r.step == KeyStep::NeedsEnter
                            } else {
                                r.step == KeyStep::Done && *final(state) == s
                            },
                            Action::Collapse => if !s.preview_fullscreen && !(spec_parent_path(
                                s.current_path@,
                            ) is None) {
                                r.step == KeyStep::NeedsParent
                            } else {
                                r.step == KeyStep::Done && *final(state) == s
                            },
                            Action::Open => if !s.preview_fullscreen && s.selected_index
                                < nodes@.len() && s.focus_pane is Tree && nodes@[s.selected_index as int].node_type
                                is Directory {
                                r.step == KeyStep::NeedsEnter
                            } else if !s.preview_fullscreen && spec_can_enter_fullscreen(
                                s,
                                nodes@,
                            ) {
                                *final(state) == (SessionState {
                                    preview_fullscreen: true,
                                    focus_pane: FocusPane::Preview,
                                    ..s
                                }) && r.step == KeyStep::Done && !r.refresh_preview
                            } else {
                                r.step == KeyStep::Done && *final(state) == s
                            },
                            Action::SwitchFocus => r.step == KeyStep::Done && *final(state) == (
                            if !s.preview_fullscreen {
                                SessionState {
                                    focus_pane: if s.focus_pane is Tree {
                                        FocusPane::Preview
                                    } else {
                                        FocusPane::Tree
                                    },
                                    ..s
                                }
                            } else {
                                s
                            }),
                            Action::PageUp => r.step == KeyStep::Done && *final(state) == (
                            if s.preview_fullscreen || s.focus_pane is Preview {
                                scrolled(s, -spec_page(rows), total, rows)
                            } else {
                                s
                            }),
                            Action::PageDown => r.step == KeyStep::Done && *final(state) == (
                            if s.preview_fullscreen || s.focus_pane is Preview {
                                scrolled(s, spec_page(rows), total, rows)
                            } else {
                                s
                            }),
                            Action::PreviewScrollUp => r.step == KeyStep::Done && *final(state)
                                == (if s.preview_fullscreen || s.focus_pane is Preview {
                                scrolled(s, -3, total, rows)
                            } else {
                                s
                            }),
                            Action::PreviewScrollDown => r.step == KeyStep::Done && *final(state)
                                == (if s.preview_fullscreen || s.focus_pane is Preview {
                                scrolled(s, 3, total, rows)
                            } else {
                                s
                            }),
                            Action::TogglePreviewLineNumbers => r.step == KeyStep::Done
                                && *final(state) == (SessionState {
                                preview_show_line_numbers: !s.preview_show_line_numbers,
                                ..s
                            }),
                            Action::TogglePreviewWrap => r.step == KeyStep::Done && *final(state)
                                == (SessionState {
                                preview_wrap_enabled: !s.preview_wrap_enabled,
                                ..s
                            }),
                            Action::ToggleHidden => if !s.preview_fullscreen {
                                r.step == KeyStep::NeedsToggleHidden
                            } else {
                                r.step == KeyStep::Done && *final(state) == s
                            },
                            Action::ResizePreviewNarrower | Action::ResizePreviewWider => r.step
                                == KeyStep::Done && (s.preview_fullscreen ==> *final(state) == s
                                && !r.refresh_preview) && (!s.preview_fullscreen
                                ==> r.refresh_preview && *final(state) == (SessionState {
                                preview_width_cols: final(state).preview_width_cols,
                                ..s
                            })),
                            Action::Quit => r.step == KeyStep::Done && *final(state) == s,
                            _ => true,
                        }
                    }
                },
            }
        }),
{
    match action {
        Action::ToggleHelp => {
            state.help_overlay_visible = !state.help_overlay_visible;
            return KeyOutcome { step: KeyStep::Done, quit: false, refresh_preview: false };
        },
        Action::ExitFullscreenPreview => {
            if state.help_overlay_visible {
                state.help_overlay_visible = false;
            } else if state.preview_fullscreen {
                state.preview_fullscreen = false;
            }
            return KeyOutcome { step: KeyStep::Done, quit: false, refresh_preview: false };
        },
        _ => {},
    }
    if state.help_overlay_visible {
        return KeyOutcome { step: KeyStep::Done, quit: false, refresh_preview: false };
    }
    match action {
        Action::MoveUp => {
            if state.preview_fullscreen {
                state.scroll_preview_lines(-1, preview_total_lines, preview_viewport_rows);
                KeyOutcome { step: KeyStep::Done, quit: false, refresh_preview: false }
            } else {
                move_up(state);
                state.update_selected_path(nodes.as_slice());
                state.reset_preview_scroll();
                KeyOutcome { step: KeyStep::Done, quit: false, refresh_preview: true }
            }
        },
        Action::MoveDown => {
            if state.preview_fullscreen {
                state.scroll_preview_lines(1, preview_total_lines, preview_viewport_rows);
                KeyOutcome { step: KeyStep::Done, quit: false, refresh_preview: false }
            } else {
                move_down(state, nodes.len());
                state.update_selected_path(nodes.as_slice());
                state.reset_preview_scroll();
                KeyOutcome { step: KeyStep::Done, quit: false, refresh_preview: true }
            }
        },
        Action::Expand => {
            if !state.preview_fullscreen {
                KeyOutcome { step: KeyStep::NeedsEnter, quit: false, refresh_preview: false }
            } else {
                KeyOutcome { step: KeyStep::Done, quit: false, refresh_preview: false }
            }
        },
        Action::Collapse => {
            if !state.preview_fullscreen && !crate::listing::is_filesystem_root(
                state.current_path.as_str(),
            ) {
                KeyOutcome { step: KeyStep::NeedsParent, quit: false, refresh_preview: false }
            } else {
                KeyOutcome { step: KeyStep::Done, quit: false, refresh_preview: false }
            }
        },
        Action::Open => {
            if !state.preview_fullscreen && state.selected_index < nodes.len() {
                if matches!(state.focus_pane, FocusPane::Tree) && matches!(
                    nodes[state.selected_index].node_type,
                    NodeType::Directory,
                ) {
                    return KeyOutcome {
                        step: KeyStep::NeedsEnter,
                        quit: false,
                        refresh_preview: false,
                    };
                }
                if can_enter_fullscreen_preview(state, nodes) {
                    state.preview_fullscreen = true;
                    state.focus_pane = FocusPane::Preview;
                }
                KeyOutcome { step: KeyStep::Done, quit: false, refresh_preview: false }
            } else {
                KeyOutcome { step: KeyStep::Done, quit: false, refresh_preview: false }
            }
        },
        Action::SwitchFocus => {
            if !state.preview_fullscreen {
                crate::navigation::switch_focus(state);
            }
            KeyOutcome { step: KeyStep::Done, quit: false, refresh_preview: false }
        },
        Action::PageUp => {
            if state.preview_fullscreen || matches!(state.focus_pane, FocusPane::Preview) {
                state.page_scroll_preview_up(preview_total_lines, preview_viewport_rows);
            }
            KeyOutcome { step: KeyStep::Done, quit: false, refresh_preview: false }
        },
        Action::PageDown => {
            if state.preview_fullscreen || matches!(state.focus_pane, FocusPane::Preview) {
                state.page_scroll_preview_down(preview_total_lines, preview_viewport_rows);
            }
            KeyOutcome { step: KeyStep::Done, quit: false, refresh_preview: false }
        },
        Action::PreviewScrollUp => {
            if state.preview_fullscreen || matches!(state.focus_pane, FocusPane::Preview) {
                state.scroll_preview_lines(-3, preview_total_lines, preview_viewport_rows);
            }
            KeyOutcome { step: KeyStep::Done, quit: false, refresh_preview: false }
        },
        Action::PreviewScrollDown => {
            if state.preview_fullscreen || matches!(state.focus_pane, FocusPane::Preview) {
                state.scroll_preview_lines(3, preview_total_lines, preview_viewport_rows);
            }
            KeyOutcome { step: KeyStep::Done, quit: false, refresh_preview: false }
        },
        Action::TogglePreviewLineNumbers => {
            state.preview_show_line_numbers = !state.preview_show_line_numbers;
            KeyOutcome { step: KeyStep::Done, quit: false, refresh_preview: false }
        },
        Action::TogglePreviewWrap => {
            state.preview_wrap_enabled = !state.preview_wrap_enabled;
            KeyOutcome { step: KeyStep::Done, quit: false, refresh_preview: false }
        },
        Action::ToggleHidden => {
            if !state.preview_fullscreen {
                KeyOutcome { step: KeyStep::NeedsToggleHidden, quit: false, refresh_preview: false }
            } else {
                KeyOutcome { step: KeyStep::Done, quit: false, refresh_preview: false }
            }
        },
        Action::ResizePreviewNarrower => {
            if !state.preview_fullscreen {
                let step = state.resize_step();
                let delta: i16 = if step > 32767 {
                    -32767
                } else {
                    -(step as i16)
                };
                state.resize_preview_by(delta, main_width);
                KeyOutcome { step: KeyStep::Done, quit: false, refresh_preview: true }
            } else {
                KeyOutcome { step: KeyStep::Done, quit: false, refresh_preview: false }
            }
        },
        Action::ResizePreviewWider => {
            if !state.preview_fullscreen {
                let step = state.resize_step();
                let delta: i16 = if step > 32767 {
                    32767
                } else {
                    step as i16
                };
                state.resize_preview_by(delta, main_width);
                KeyOutcome { step: KeyStep::Done, quit: false, refresh_preview: true }
            } else {
                KeyOutcome { step: KeyStep::Done, quit: false, refresh_preview: false }
            }
        },
        Action::Quit => KeyOutcome { step: KeyStep::Done, quit: true, refresh_preview: false },
        Action::ToggleHelp | Action::ExitFullscreenPreview => KeyOutcome {
            step: KeyStep::Done,
            quit: false,
            refresh_preview: false,
        },
    }
}

/// Whether a mouse column sits in the preview panel: always in fullscreen,
/// otherwise at or right of the divider.
pub fn in_preview_panel(state: &SessionState, column: u16, main_width: u16) -> (r: bool)
    ensures
        r == (state.preview_fullscreen || column as int >= main_width as int
            - crate::session::spec_effective_width(*state, main_width as int)),
{
    let divider = state.divider_column(main_width);
    state.preview_fullscreen || column >= divider
}

/// The entry row a click lands on, if it hits the tree panel's list area.
///
/// The panel occupies the tree width at the left, from row one, above the
/// bottom status row; its first list row is row two.
pub fn tree_index_for_click(
    state: &SessionState,
    column: u16,
    row: u16,
    terminal_width: u16,
    terminal_height: u16,
    nodes_len: usize,
) -> (r: Option<usize>)
    ensures
        ({
            let tree_width = terminal_width as int - crate::session::spec_effective_width(
                *state,
                terminal_width as int,
            );
            let rows = if terminal_height >= 2 {
                terminal_height - 2
            } else {
                0
            };
            let hit = !state.preview_fullscreen && (column as int) < tree_width && row > 1 && (
            row as int) < rows && (row - 2) < nodes_len;
            match r {
                Some(i) => hit && i == row - 2,
                None => !hit,
            }
        }),
{
    if state.preview_fullscreen {
        return None;
    }
    let main_height = if terminal_height >= 2 {
        terminal_height - 2
    } else {
        0
    };
    let (tree_width, _) = state.panel_widths(terminal_width);
    let area_y: u16 = 1;
    if column >= tree_width {
        return None;
    }
    if row <= area_y {
        return None;
    }
    let bottom = if area_y as u32 + main_height as u32 >= 1 {
        (area_y as u32 + main_height as u32 - 1) as u32
    } else {
        0
    };
    if row as u32 >= bottom {
        return None;
    }
    let index = (row - (area_y + 1)) as usize;
    if index < nodes_len {
        Some(index)
    } else {
        None
    }
}

/// The kind of mouse event the resize logic reads.
#[derive(Debug, Clone, Copy, PartialEq, Eq, Structural)]
pub enum MouseKind {
    LeftDown,
    LeftDrag,
    Moved,
    LeftUp,
    ScrollUp,
    ScrollDown,
    Other,
}

/// Track a divider drag: a press near the divider starts it, moves while it
/// is active resize the preview from the pointer's column, and a release
/// ends it. Yields whether the preview width changed.
pub fn apply_mouse_resize(state: &mut SessionState, kind: MouseKind, column: u16, main_width: u16) -> (changed: bool)
    ensures
        changed == (final(state).preview_width_cols != old(state).preview_width_cols),
        ({
            let s = *old(state);
            let divider = main_width as int - crate::session::spec_effective_width(
                s,
                main_width as int,
            );
            let near = -1 <= column - divider <= 1;
            let dragged_width = crate::session::spec_clamped_width(
                s.tree_min_width_cols as int,
                s.preview_min_width_cols as int,
                main_width as int,
                main_width as int - (if column as int <= main_width as int {
                    column as int
                } else {
                    main_width as int
                }),
            );
            match kind {
                MouseKind::LeftDown => if near {
                    *final(state) == (SessionState {
                        divider_drag_active: true,
                        preview_width_cols: dragged_width as u16,
                        ..s
                    })
                } else {
                    *final(state) == s
                },
                MouseKind::LeftDrag | MouseKind::Moved => if s.divider_drag_active {
                    *final(state) == (SessionState {
                        preview_width_cols: dragged_width as u16,
                        ..s
                    })
                } else {
                    *final(state) == s
                },
                MouseKind::LeftUp => if s.divider_drag_active {
                    *final(state) == (SessionState {
                        divider_drag_active: false,
                        preview_width_cols: dragged_width as u16,
                        ..s
                    })
                } else {
                    *final(state) == s
                },
                _ => *final(state) == s,
            }
        }),
{
    let divider = state.divider_column(main_width);
    let near_divider = if column >= divider {
        column - divider <= 1
    } else {
        divider - column <= 1
    };
    let before = state.preview_width_cols;
    match kind {
        MouseKind::LeftDown => {
            if near_divider {
                state.divider_drag_active = true;
                state.set_preview_width_from_divider(column, main_width);
                state.preview_width_cols != before
            } else {
                false
            }
        },
        MouseKind::LeftDrag | MouseKind::Moved => {
            if state.divider_drag_active {
                state.set_preview_width_from_divider(column, main_width);
                state.preview_width_cols != before
            } else {
                false
            }
        },
        MouseKind::LeftUp => {
            if state.divider_drag_active {
                state.divider_drag_active = false;
                state.set_preview_width_from_divider(column, main_width);
                state.preview_width_cols != before
            } else {
                false
            }
        },
        _ => false,
    }
}

} // verus!
