//! The single session state: selection, panel geometry and preview scroll.
//!
//! All geometry here is pure integer arithmetic; the contracts pin the
//! clamping rules that keep layout and scroll numerically consistent.
use vstd::prelude::*;

use crate::config::StatusDisplayMode;
use crate::git::GitRepoStatus;
use crate::node::TreeNode;

verus! {

/// Which panel currently receives navigation keys.
#[derive(Debug, Clone, PartialEq, Eq, Structural)]
pub enum FocusPane {
    Tree,
    Preview,
}

/// Preformatted metadata of the selected entry, shown under the preview.
#[derive(Debug, Clone, PartialEq, Eq)]
pub struct SelectedEntryMetadata {
    pub filename: String,
    pub size_text: String,
    pub permission_text: String,
    pub modified_text: String,
    pub hidden_text: String,
}

impl Default for SelectedEntryMetadata {
    /// Every field falls back to a placeholder until an entry is selected.
    fn default() -> (r: Self)
        ensures
            r.filename@ == "-"@,
            r.size_text@ == "-"@,
            r.permission_text@ == "-"@,
            r.modified_text@ == "-"@,
            r.hidden_text@ == "off"@,
    {
        SelectedEntryMetadata {
            filename: "-".to_owned(),
            size_text: "-".to_owned(),
            permission_text: "-".to_owned(),
            modified_text: "-".to_owned(),
            hidden_text: "off".to_owned(),
        }
    }
}

/// Which regions of the screen are drawn.
#[derive(Debug, Clone, PartialEq, Eq, Structural)]
pub struct LayoutRegions {
    pub top_directory_header: bool,
    pub left_navigation_panel: bool,
    pub right_preview_panel: bool,
    pub preview_top_status_bar: bool,
    pub bottom_global_status_bar: bool,
}

impl Default for LayoutRegions {
    /// All regions are enabled by default.
    fn default() -> (r: Self)
        ensures
            r.top_directory_header,
            r.left_navigation_panel,
            r.right_preview_panel,
            r.preview_top_status_bar,
            r.bottom_global_status_bar,
    {
        LayoutRegions {
            top_directory_header: true,
            left_navigation_panel: true,
            right_preview_panel: true,
            preview_top_status_bar: true,
            bottom_global_status_bar: true,
        }
    }
}

pub const DEFAULT_TREE_WIDTH_DENOMINATOR: u16 = 6;

pub const DEFAULT_PANEL_MIN_WIDTH: u16 = 20;

pub const DEFAULT_RESIZE_STEP: u16 = 2;

/// The whole navigable state of one explorer session.
#[derive(Debug, Clone)]
pub struct SessionState {
    pub root_path: String,
    pub current_path: String,
    pub selected_index: usize,
    pub selected_path: String,
    pub focus_pane: FocusPane,
    pub status_message: String,
    pub last_preview_latency_ms: u128,
    pub last_child_path: Option<String>,
    pub show_hidden: bool,
    pub selected_metadata: SelectedEntryMetadata,
    pub layout_regions: LayoutRegions,
    pub preview_width_cols: u16,
    pub tree_min_width_cols: u16,
    pub preview_min_width_cols: u16,
    pub preview_resize_step_cols: u16,
    pub preview_scroll_row: usize,
    pub preview_show_line_numbers: bool,
    pub preview_wrap_enabled: bool,
    pub preview_fullscreen: bool,
    pub divider_drag_active: bool,
    pub help_overlay_visible: bool,
    pub status_display_mode: StatusDisplayMode,
    pub git_status: Option<GitRepoStatus>,
}

/// The largest admissible scroll row for a document of `total_lines` lines in
/// a viewport of `viewport_rows` rows (a viewport counts at least one row).
pub open spec fn spec_max_scroll_row(total_lines: nat, viewport_rows: nat) -> nat {
    let vp = if viewport_rows < 1 { 1 } else { viewport_rows as int };
    if total_lines > vp {
        (total_lines - vp) as nat
    } else {
        0
    }
}

/// The preview width that `desired` clamps to inside a `main` columns wide
/// area whose panels ask for at least `tree_min` and `preview_min` columns.
///
/// The preview minimum is capped at the total width, the tree minimum at what
/// the preview minimum leaves over; the result always fits inside `main`.
pub open spec fn spec_clamped_width(tree_min: int, preview_min: int, main: int, desired: int) -> int {
    if main == 0 {
        0
    } else {
        let pmin = if preview_min <= main { preview_min } else { main };
        let tcap = main - pmin;
        let tmin = if tree_min <= tcap { tree_min } else { tcap };
        let pmax0 = main - tmin;
        let pmax = if pmax0 >= pmin { pmax0 } else { pmin };
        if desired < pmin {
            pmin
        } else if desired > pmax {
            pmax
        } else {
            desired
        }
    }
}

/// The width the preview panel actually uses: the stored setting, or the
/// default (total minus one sixth for the tree) while the setting is zero,
/// re-clamped either way.
pub open spec fn spec_effective_width(s: SessionState, main: int) -> int {
    let desired = if s.preview_width_cols == 0 {
        main - main / (DEFAULT_TREE_WIDTH_DENOMINATOR as int)
    } else {
        s.preview_width_cols as int
    };
    spec_clamped_width(s.tree_min_width_cols as int, s.preview_min_width_cols as int, main, desired)
}

/// Clamping never leaves the screen: the result lies in `[0, main]`, and is at
/// least the preview minimum whenever the screen is not empty.
pub proof fn lemma_clamped_width_in_range(tree_min: int, preview_min: int, main: int, desired: int)
    requires
        0 <= tree_min,
        0 <= preview_min,
        0 <= main,
    ensures
        0 <= spec_clamped_width(tree_min, preview_min, main, desired) <= main,
{
}

/// Both panels meet their configured minimums and exactly cover the width,
/// whenever the total width has room for the two minimums.
pub proof fn lemma_panel_widths_fit(tree_min: int, preview_min: int, main: int, desired: int)
    requires
        0 <= tree_min,
        0 <= preview_min,
        tree_min + preview_min <= main,
        0 < main,
    ensures
        preview_min <= spec_clamped_width(tree_min, preview_min, main, desired) <= main - tree_min,
{
}

/// Clamping an already clamped width changes nothing.
pub proof fn lemma_clamped_width_idempotent(tree_min: int, preview_min: int, main: int, desired: int)
    requires
        0 <= tree_min,
        0 <= preview_min,
        0 <= main,
    ensures
        spec_clamped_width(
            tree_min,
            preview_min,
            main,
            spec_clamped_width(tree_min, preview_min, main, desired),
        ) == spec_clamped_width(tree_min, preview_min, main, desired),
{
}

/// The index of the first entry of `nodes`, at or after `from`, whose path
/// reads `p`.
pub open spec fn path_index_from(nodes: Seq<TreeNode>, p: Seq<char>, from: int) -> Option<int>
    decreases nodes.len() - from,
{
    if from < 0 || from >= nodes.len() {
        None
    } else if nodes[from].path@ == p {
        Some(from)
    } else {
        path_index_from(nodes, p, from + 1)
    }
}

/// A selection is valid when it indexes the entry list, or is zero while the
/// list is empty.
pub open spec fn selection_ok(selected_index: int, n_entries: int) -> bool {
    if n_entries == 0 {
        selected_index == 0
    } else {
        selected_index < n_entries
    }
}

impl SessionState {
    /// A fresh session rooted at `root_path`: selection at the root, tree
    /// focused, defaults for every toggle and width.
    pub fn new(root_path: String) -> (r: Self)
        ensures
            r.root_path@ == root_path@,
            r.current_path@ == root_path@,
            r.selected_index == 0,
            r.selected_path@ == root_path@,
            r.focus_pane is Tree,
            r.status_message@ == Seq::<char>::empty(),
            r.last_preview_latency_ms == 0,
            r.last_child_path is None,
            !r.show_hidden,
            r.preview_width_cols == 0,
            r.tree_min_width_cols == DEFAULT_PANEL_MIN_WIDTH,
            r.preview_min_width_cols == DEFAULT_PANEL_MIN_WIDTH,
            r.preview_resize_step_cols == DEFAULT_RESIZE_STEP,
            r.preview_scroll_row == 0,
            r.preview_show_line_numbers,
            !r.preview_wrap_enabled,
            !r.preview_fullscreen,
            !r.divider_drag_active,
            !r.help_overlay_visible,
            r.status_display_mode is Bar,
            r.git_status is None,
            r.layout_regions == (LayoutRegions {
                top_directory_header: true,
                left_navigation_panel: true,
                right_preview_panel: true,
                preview_top_status_bar: true,
                bottom_global_status_bar: true,
            }),
            r.selected_metadata.filename@ == "-"@,
            r.selected_metadata.hidden_text@ == "off"@,
    {
        SessionState {
            root_path: root_path.clone(),
            current_path: root_path.clone(),
            selected_index: 0,
            selected_path: root_path,
            focus_pane: FocusPane::Tree,
            status_message: String::new(),
            last_preview_latency_ms: 0,
            last_child_path: None,
            show_hidden: false,
            selected_metadata: SelectedEntryMetadata::default(),
            layout_regions: LayoutRegions::default(),
            preview_width_cols: 0,
            tree_min_width_cols: DEFAULT_PANEL_MIN_WIDTH,
            preview_min_width_cols: DEFAULT_PANEL_MIN_WIDTH,
            preview_resize_step_cols: DEFAULT_RESIZE_STEP,
            preview_scroll_row: 0,
            preview_show_line_numbers: true,
            preview_wrap_enabled: false,
            preview_fullscreen: false,
            divider_drag_active: false,
            help_overlay_visible: false,
            status_display_mode: StatusDisplayMode::Bar,
            git_status: None,
        }
    }

    /// Store the width the preview effectively has at `main_width` columns.
    pub fn normalize_preview_width(&mut self, main_width: u16)
        ensures
            final(self).preview_width_cols == spec_effective_width(*old(self), main_width as int),
            *final(self) == (SessionState {
                preview_width_cols: final(self).preview_width_cols,
                ..*old(self)
            }),
    {
        self.preview_width_cols = self.effective_preview_width(main_width);
    }

    /// The widths of the tree and preview panels; they exactly cover
    /// `main_width`.
    pub fn panel_widths(&self, main_width: u16) -> (r: (u16, u16))
        ensures
            r.1 == spec_effective_width(*self, main_width as int),
            r.0 + r.1 == main_width,
    {
        proof {
            lemma_clamped_width_in_range(
                self.tree_min_width_cols as int,
                self.preview_min_width_cols as int,
                main_width as int,
                if self.preview_width_cols == 0 {
                    main_width as int - main_width as int / (DEFAULT_TREE_WIDTH_DENOMINATOR as int)
                } else {
                    self.preview_width_cols as int
                },
            );
        }
        let preview = self.effective_preview_width(main_width);
        let tree = main_width - preview;
        (tree, preview)
    }

    /// The keyboard resize step: the configured step, at least one column.
    pub fn resize_step(&self) -> (r: u16)
        ensures
            r == (if self.preview_resize_step_cols >= 1 {
                self.preview_resize_step_cols as int
            } else {
                1
            }),
    {
        if self.preview_resize_step_cols >= 1 {
            self.preview_resize_step_cols
        } else {
            1
        }
    }

    /// Scroll back to the first line.
    pub fn reset_preview_scroll(&mut self)
        ensures
            *final(self) == (SessionState { preview_scroll_row: 0, ..*old(self) }),
    {
        self.preview_scroll_row = 0;
    }

    /// Pull the scroll row back inside the admissible range.
    pub fn clamp_preview_scroll(&mut self, total_lines: usize, viewport_rows: usize)
        ensures
            final(self).preview_scroll_row == (if old(self).preview_scroll_row as nat
                <= spec_max_scroll_row(total_lines as nat, viewport_rows as nat) {
                old(self).preview_scroll_row as nat
            } else {
                spec_max_scroll_row(total_lines as nat, viewport_rows as nat)
            }),
            final(self).preview_scroll_row <= spec_max_scroll_row(
                total_lines as nat,
                viewport_rows as nat,
            ),
            *final(self) == (SessionState {
                preview_scroll_row: final(self).preview_scroll_row,
                ..*old(self)
            }),
    {
        let max_scroll = max_scroll_row(total_lines, viewport_rows);
        if self.preview_scroll_row > max_scroll {
            self.preview_scroll_row = max_scroll;
        }
    }

    /// Move the scroll row by `delta` lines: downward moves saturate at the
    /// bottom of the document, upward moves at the first line.
    pub fn scroll_preview_lines(&mut self, delta: isize, total_lines: usize, viewport_rows: usize)
        ensures
            final(self).preview_scroll_row == spec_scrolled_row(
                old(self).preview_scroll_row as nat,
                delta as int,
                total_lines as nat,
                viewport_rows as nat,
            ),
            *final(self) == (SessionState {
                preview_scroll_row: final(self).preview_scroll_row,
                ..*old(self)
            }),
    {
        let max_scroll = max_scroll_row(total_lines, viewport_rows);
        if delta < 0 {
            let magnitude: usize = if delta == isize::MIN {
                (isize::MAX as usize) + 1
            } else {
                (-delta) as usize
            };
            self.preview_scroll_row = if self.preview_scroll_row >= magnitude {
                self.preview_scroll_row - magnitude
            } else {
                0
            };
        } else if delta > 0 {
            let d = delta as usize;
            if self.preview_scroll_row >= max_scroll {
                // Already at or past the bottom: a downward move stops there.
                self.preview_scroll_row = max_scroll;
            } else if d <= max_scroll - self.preview_scroll_row {
                self.preview_scroll_row = self.preview_scroll_row + d;
            } else {
                self.preview_scroll_row = max_scroll;
            }
        }
    }

    /// Scroll one viewport page down.
    pub fn page_scroll_preview_down(&mut self, total_lines: usize, viewport_rows: usize)
        ensures
            final(self).preview_scroll_row == spec_scrolled_row(
                old(self).preview_scroll_row as nat,
                (if viewport_rows >= 1 { viewport_rows as int } else { 1 }),
                total_lines as nat,
                viewport_rows as nat,
            ),
            *final(self) == (SessionState {
                preview_scroll_row: final(self).preview_scroll_row,
                ..*old(self)
            }),
    {
        let page: usize = if viewport_rows >= 1 { viewport_rows } else { 1 };
        let max_scroll = max_scroll_row(total_lines, viewport_rows);
        if self.preview_scroll_row >= max_scroll {
            self.preview_scroll_row = max_scroll;
        } else if max_scroll - self.preview_scroll_row >= page {
            self.preview_scroll_row = self.preview_scroll_row + page;
        } else {
            self.preview_scroll_row = max_scroll;
        }
    }

    /// Scroll one viewport page up.
    pub fn page_scroll_preview_up(&mut self, total_lines: usize, viewport_rows: usize)
        ensures
            final(self).preview_scroll_row == spec_scrolled_row(
                old(self).preview_scroll_row as nat,
                -(if viewport_rows >= 1 { viewport_rows as int } else { 1 }),
                total_lines as nat,
                viewport_rows as nat,
            ),
            *final(self) == (SessionState {
                preview_scroll_row: final(self).preview_scroll_row,
                ..*old(self)
            }),
    {
        let page: usize = if viewport_rows >= 1 { viewport_rows } else { 1 };
        if self.preview_scroll_row >= page {
            self.preview_scroll_row = self.preview_scroll_row - page;
        } else {
            self.preview_scroll_row = 0;
        }
    }

    /// Resize the preview by `delta_cols` columns from its effective width,
    /// then re-clamp.
    pub fn resize_preview_by(&mut self, delta_cols: i16, main_width: u16)
        ensures
            final(self).preview_width_cols == spec_clamped_width(
                old(self).tree_min_width_cols as int,
                old(self).preview_min_width_cols as int,
                main_width as int,
                spec_saturate_u16(
                    spec_effective_width(*old(self), main_width as int) + delta_cols as int,
                ),
            ),
            *final(self) == (SessionState {
                preview_width_cols: final(self).preview_width_cols,
                ..*old(self)
            }),
    {
        let base = self.effective_preview_width(main_width);
        let base32: i32 = base as i32;
        let delta32: i32 = delta_cols as i32;
        let sum: i32 = base32 + delta32;
        let desired: u16 = if sum < 0 {
            0
        } else if sum > u16::MAX as i32 {
            u16::MAX
        } else {
            sum as u16
        };
        self.preview_width_cols = self.clamped_preview_width(main_width, desired);
    }

    /// Set the preview width from an absolute divider column, then re-clamp.
    pub fn set_preview_width_from_divider(&mut self, divider_col: u16, main_width: u16)
        ensures
            final(self).preview_width_cols == spec_clamped_width(
                old(self).tree_min_width_cols as int,
                old(self).preview_min_width_cols as int,
                main_width as int,
                main_width as int - (if divider_col as int <= main_width as int {
                    divider_col as int
                } else {
                    main_width as int
                }),
            ),
            *final(self) == (SessionState {
                preview_width_cols: final(self).preview_width_cols,
                ..*old(self)
            }),
    {
        let tree = if divider_col <= main_width {
            divider_col
        } else {
            main_width
        };
        let desired_preview = main_width - tree;
        self.preview_width_cols = self.clamped_preview_width(main_width, desired_preview);
    }

    /// The column at which the divider between the panels stands.
    pub fn divider_column(&self, main_width: u16) -> (r: u16)
        ensures
            r == main_width as int - spec_effective_width(*self, main_width as int),
    {
        let (tree, _) = self.panel_widths(main_width);
        tree
    }

    /// The width the preview effectively has at `main_width` columns.
    pub fn effective_preview_width(&self, main_width: u16) -> (r: u16)
        ensures
            r == spec_effective_width(*self, main_width as int),
    {
        let desired = if self.preview_width_cols == 0 {
            let default_tree_width = main_width / DEFAULT_TREE_WIDTH_DENOMINATOR;
            main_width - default_tree_width
        } else {
            self.preview_width_cols
        };
        self.clamped_preview_width(main_width, desired)
    }

    /// Clamp `desired` into the admissible preview range for `main_width`.
    pub fn clamped_preview_width(&self, main_width: u16, desired: u16) -> (r: u16)
        ensures
            r == spec_clamped_width(
                self.tree_min_width_cols as int,
                self.preview_min_width_cols as int,
                main_width as int,
                desired as int,
            ),
    {
        if main_width == 0 {
            return 0;
        }
        let preview_min = if self.preview_min_width_cols <= main_width {
            self.preview_min_width_cols
        } else {
            main_width
        };
        let tree_cap = main_width - preview_min;
        let tree_min = if self.tree_min_width_cols <= tree_cap {
            self.tree_min_width_cols
        } else {
            tree_cap
        };
        let preview_cap = main_width - tree_min;
        let preview_max = if preview_cap >= preview_min {
            preview_cap
        } else {
            preview_min
        };
        if desired < preview_min {
            preview_min
        } else if desired > preview_max {
            preview_max
        } else {
            desired
        }
    }

    /// Pull the selection back inside the entry list; an empty list selects
    /// index zero.
    pub fn revalidate_selection(&mut self, nodes: &[TreeNode])
        ensures
            selection_ok(final(self).selected_index as int, nodes@.len() as int),
            final(self).selected_index == (if nodes@.len() == 0 {
                0int
            } else if old(self).selected_index as int >= nodes@.len() {
                nodes@.len() - 1
            } else {
                old(self).selected_index as int
            }),
            *final(self) == (SessionState {
                selected_index: final(self).selected_index,
                ..*old(self)
            }),
    {
        if nodes.len() == 0 {
            self.selected_index = 0;
            return ;
        }
        if self.selected_index >= nodes.len() {
            self.selected_index = nodes.len() - 1;
        }
    }

    /// Select the entry whose path is `preferred` if the list holds one,
    /// otherwise the first entry; an empty list selects index zero.
    pub fn restore_or_default_selection(&mut self, nodes: &[TreeNode], preferred: Option<&String>)
        ensures
            selection_ok(final(self).selected_index as int, nodes@.len() as int),
            final(self).selected_index as int == (if nodes@.len() == 0 {
                0int
            } else {
                match preferred {
                    Some(p) => match path_index_from(nodes@, p@, 0) {
                        Some(i) => i,
                        None => 0int,
                    },
                    None => 0int,
                }
            }),
            *final(self) == (SessionState {
                selected_index: final(self).selected_index,
                ..*old(self)
            }),
    {
        if nodes.len() == 0 {
            self.selected_index = 0;
            return ;
        }
        if let Some(path) = preferred {
            let mut i: usize = 0;
            while i < nodes.len()
                invariant
                    i <= nodes@.len(),
                    path_index_from(nodes@, path@, 0) == path_index_from(nodes@, path@, i as int),
                    *self == *old(self),
                    preferred == Some(path),
                decreases nodes@.len() - i,
            {
                if nodes[i].path.eq(path) {
                    proof {
                        assert(path_index_from(nodes@, path@, i as int) == Some(i as int));
                    }
                    self.selected_index = i;
                    return ;
                }
                proof {
                    assert(path_index_from(nodes@, path@, i as int) == path_index_from(
                        nodes@,
                        path@,
                        i + 1,
                    ));
                }
                i = i + 1;
            }
        }
        self.selected_index = 0;
    }

    /// Record the path of the selected entry, or the current directory when
    /// nothing is selected.
    pub fn update_selected_path(&mut self, nodes: &[TreeNode])
        ensures
            final(self).selected_path@ == (if old(self).selected_index < nodes@.len() {
                nodes@[old(self).selected_index as int].path@
            } else {
                old(self).current_path@
            }),
            *final(self) == (SessionState {
                selected_path: final(self).selected_path,
                ..*old(self)
            }),
    {
        if self.selected_index < nodes.len() {
            self.selected_path = nodes[self.selected_index].path.clone();
        } else {
            self.selected_path = self.current_path.clone();
        }
    }
}

/// `v` pulled into the range of a sixteen-bit width.
pub open spec fn spec_saturate_u16(v: int) -> int {
    if v < 0 {
        0
    } else if v > u16::MAX {
        u16::MAX as int
    } else {
        v
    }
}

/// Where a scroll of `delta` lines from `row` ends up: downward moves stop at
/// the bottom of the document, upward moves at the first line.
pub open spec fn spec_scrolled_row(row: nat, delta: int, total: nat, vp: nat) -> nat {
    let maxs = spec_max_scroll_row(total, vp);
    if delta < 0 {
        if row + delta >= 0 {
            (row + delta) as nat
        } else {
            0
        }
    } else if delta > 0 {
        if row + delta > maxs {
            maxs
        } else {
            (row + delta) as nat
        }
    } else {
        row
    }
}

/// A scroll from an admissible row stays admissible: for every document
/// length, viewport and delta, the resulting row lies between zero and the
/// largest admissible scroll row.
pub proof fn lemma_scroll_stays_in_range(row: nat, delta: int, total: nat, vp: nat)
    requires
        row <= spec_max_scroll_row(total, vp),
    ensures
        0 <= spec_scrolled_row(row, delta, total, vp) <= spec_max_scroll_row(total, vp),
{
}

/// The largest admissible scroll row.
pub fn max_scroll_row(total_lines: usize, viewport_rows: usize) -> (r: usize)
    ensures
        r == spec_max_scroll_row(total_lines as nat, viewport_rows as nat),
{
    let vp: usize = if viewport_rows >= 1 { viewport_rows } else { 1 };
    if total_lines > vp {
        total_lines - vp
    } else {
        0
    }
}

} // verus!
