//! Navigation: how one user action moves the session between directories.
//!
//! Directory contents are handed in by the caller as the outcome of an
//! enumeration of the target directory (`Ok` with the prepared listing, or
//! `Err` with the message of a failed read); every decision made on them is
//! verified here.
use vstd::prelude::*;

use crate::listing::spec_parent_path;
use crate::node::NodeType;
use crate::node::TreeNode;
use crate::session::path_index_from;
use crate::session::selection_ok;
use crate::session::SessionState;
use vstd::string::StringExecFns;

verus! {

/// The category of what a navigation action did.
#[derive(Debug, Clone, PartialEq, Eq, Structural)]
pub enum ActionOutcome {
    Changed,
    Blocked,
    NoChange,
}

/// The immutable record of one navigation action.
#[derive(Debug, Clone)]
pub struct NavigationActionResult {
    pub action: &'static str,
    pub outcome: ActionOutcome,
    pub new_path: String,
    pub message: String,
}

impl NavigationActionResult {
    /// A record of an action that changed the session.
    pub fn changed(action: &'static str, new_path: String, message: &str) -> (r: Self)
        ensures
            r.action == action,
            r.outcome is Changed,
            r.new_path@ == new_path@,
            r.message@ == message@,
    {
        NavigationActionResult {
            action,
            outcome: ActionOutcome::Changed,
            new_path,
            message: message.to_owned(),
        }
    }

    /// A record of an action refused by a permission or a missing selection.
    pub fn blocked(action: &'static str, new_path: String, message: &str) -> (r: Self)
        ensures
            r.action == action,
            r.outcome is Blocked,
            r.new_path@ == new_path@,
            r.message@ == message@,
    {
        NavigationActionResult {
            action,
            outcome: ActionOutcome::Blocked,
            new_path,
            message: message.to_owned(),
        }
    }

    /// A record of an action that had nothing to do.
    pub fn no_change(action: &'static str, new_path: String, message: &str) -> (r: Self)
        ensures
            r.action == action,
            r.outcome is NoChange,
            r.new_path@ == new_path@,
            r.message@ == message@,
    {
        NavigationActionResult {
            action,
            outcome: ActionOutcome::NoChange,
            new_path,
            message: message.to_owned(),
        }
    }
}

/// `message` followed by the current path, as shown in the status line.
pub fn format_status_with_path(message: &str, current_path: &str) -> (r: String)
    ensures
        r@ == message@ + " Path: "@ + current_path@,
{
    let mut r = message.to_owned();
    r.append(" Path: ");
    r.append(current_path);
    r
}

/// Toggle which panel receives navigation keys.
pub fn switch_focus(state: &mut SessionState)
    ensures
        final(state).focus_pane == (if old(state).focus_pane is Tree {
            crate::session::FocusPane::Preview
        } else {
            crate::session::FocusPane::Tree
        }),
        *final(state) == (SessionState { focus_pane: final(state).focus_pane, ..*old(state) }),
{
    state.focus_pane = match state.focus_pane {
        crate::session::FocusPane::Tree => crate::session::FocusPane::Preview,
        crate::session::FocusPane::Preview => crate::session::FocusPane::Tree,
    };
}

/// Move the selection one entry up, saturating at the first entry.
pub fn move_up(state: &mut SessionState)
    ensures
        final(state).selected_index == (if old(state).selected_index > 0 {
            old(state).selected_index - 1
        } else {
            0int
        }),
        *final(state) == (SessionState {
            selected_index: final(state).selected_index,
            ..*old(state)
        }),
{
    if state.selected_index > 0 {
        state.selected_index = state.selected_index - 1;
    }
}

/// Move the selection one entry down, saturating at the last entry.
pub fn move_down(state: &mut SessionState, nodes_len: usize)
    ensures
        final(state).selected_index == (if old(state).selected_index + 1 < nodes_len {
            old(state).selected_index + 1
        } else {
            old(state).selected_index as int
        }),
        *final(state) == (SessionState {
            selected_index: final(state).selected_index,
            ..*old(state)
        }),
        selection_ok(old(state).selected_index as int, nodes_len as int) ==> selection_ok(
            final(state).selected_index as int,
            nodes_len as int,
        ),
{
    if state.selected_index < usize::MAX && state.selected_index + 1 < nodes_len {
        state.selected_index = state.selected_index + 1;
    }
}

/// Mark the selected entry expanded, if it is a directory.
pub fn expand_selected(nodes: &mut Vec<TreeNode>, selected_index: usize)
    ensures
        final(nodes)@.len() == old(nodes)@.len(),
        forall|i: int|
            0 <= i < old(nodes)@.len() && i != selected_index ==> final(nodes)@[i] == old(
                nodes,
            )@[i],
        selected_index < old(nodes)@.len() && old(nodes)@[selected_index as int].node_type
            is Directory ==> final(nodes)@[selected_index as int] == (TreeNode {
            expanded: true,
            ..old(nodes)@[selected_index as int]
        }),
        selected_index < old(nodes)@.len() && !(old(
            nodes,
        )@[selected_index as int].node_type is Directory) ==> final(nodes)@
            == old(nodes)@,
{
    if selected_index < nodes.len() {
        if matches!(nodes[selected_index].node_type, NodeType::Directory) {
            nodes[selected_index].expanded = true;
        }
    }
    proof {
        if selected_index < old(nodes)@.len() && !(old(
            nodes,
        )@[selected_index as int].node_type is Directory) {
            assert(final(nodes)@ =~= old(nodes)@);
        }
    }
}

/// Mark the selected entry collapsed, if it is a directory.
pub fn collapse_selected(nodes: &mut Vec<TreeNode>, selected_index: usize)
    ensures
        final(nodes)@.len() == old(nodes)@.len(),
        forall|i: int|
            0 <= i < old(nodes)@.len() && i != selected_index ==> final(nodes)@[i] == old(
                nodes,
            )@[i],
        selected_index < old(nodes)@.len() && old(nodes)@[selected_index as int].node_type
            is Directory ==> final(nodes)@[selected_index as int] == (TreeNode {
            expanded: false,
            ..old(nodes)@[selected_index as int]
        }),
        selected_index < old(nodes)@.len() && !(old(
            nodes,
        )@[selected_index as int].node_type is Directory) ==> final(nodes)@
            == old(nodes)@,
{
    if selected_index < nodes.len() {
        if matches!(nodes[selected_index].node_type, NodeType::Directory) {
            nodes[selected_index].expanded = false;
        }
    }
    proof {
        if selected_index < old(nodes)@.len() && !(old(
            nodes,
        )@[selected_index as int].node_type is Directory) {
            assert(final(nodes)@ =~= old(nodes)@);
        }
    }
}

/// What entering the selected entry does, read from the state and entry list
/// before the action.
pub open spec fn spec_enter_case(state: SessionState, nodes: Seq<TreeNode>) -> ActionOutcome {
    if state.selected_index >= nodes.len() {
        ActionOutcome::Blocked
    } else if !(nodes[state.selected_index as int].node_type is Directory) {
        ActionOutcome::NoChange
    } else if !nodes[state.selected_index as int].readable {
        ActionOutcome::Blocked
    } else {
        ActionOutcome::Changed
    }
}

/// Enter the selected directory.
///
/// `listing` is the caller's enumeration of the selected entry's path,
/// already prepared for display; it is consulted only when the selection is a
/// readable directory. A failed enumeration is handed back unchanged and the
/// session is left as it was. Entering an unreadable directory is blocked and
/// changes nothing; entering a non-directory changes nothing.
pub fn enter_selected_directory(
    state: &mut SessionState,
    nodes: &mut Vec<TreeNode>,
    listing: Result<Vec<TreeNode>, String>,
) -> (r: Result<NavigationActionResult, String>)
    ensures
        ({
            let sel = old(state).selected_index as int;
            let case = spec_enter_case(*old(state), old(nodes)@);
            match case {
                ActionOutcome::Changed => {
                    let target = old(nodes)@[sel].path;
                    match listing {
                        Ok(entries) => {
                            &&& r matches Ok(a)
                            &&& a.outcome is Changed
                            &&& a.message@ == "Entered directory."@
                            &&& a.new_path@ == target@
                            &&& final(nodes)@ == entries@
                            &&& final(state).current_path@ == target@
                            &&& final(state).last_child_path matches Some(c) && c@ == target@
                            &&& final(state).selected_index == 0
                            &&& final(state).selected_path@ == (if entries@.len() > 0 {
                                entries@[0].path@
                            } else {
                                target@
                            })
                            &&& *final(state) == (SessionState {
                                current_path: final(state).current_path,
                                last_child_path: final(state).last_child_path,
                                selected_index: 0,
                                selected_path: final(state).selected_path,
                                ..*old(state)
                            })
                        },
                        Err(e) => {
                            &&& r matches Err(e2) && e2@ == e@
                            &&& *final(state) == *old(state)
                            &&& final(nodes)@ == old(nodes)@
                        },
                    }
                },
                ActionOutcome::Blocked => {
                    &&& r matches Ok(a)
                    &&& a.outcome is Blocked
                    &&& a.message@ == (if sel >= old(nodes)@.len() {
                        "No directory selected."@
                    } else {
                        "Permission denied for selected directory."@
                    })
                    &&& a.new_path@ == old(state).current_path@
                    &&& *final(state) == *old(state)
                    &&& final(nodes)@ == old(nodes)@
                },
                ActionOutcome::NoChange => {
                    &&& r matches Ok(a)
                    &&& a.outcome is NoChange
                    &&& a.message@ == "Selected item is not a directory."@
                    &&& a.new_path@ == old(state).current_path@
                    &&& *final(state) == *old(state)
                    &&& final(nodes)@ == old(nodes)@
                },
            }
        }),
        selection_ok(final(state).selected_index as int, final(nodes)@.len() as int)
            || *final(state) == *old(state),
{
    let sel = state.selected_index;
    if sel >= nodes.len() {
        return Ok(
            NavigationActionResult::blocked(
                "enter_directory",
                state.current_path.clone(),
                "No directory selected.",
            ),
        );
    }
    if !matches!(nodes[sel].node_type, NodeType::Directory) {
        return Ok(
            NavigationActionResult::no_change(
                "enter_directory",
                state.current_path.clone(),
                "Selected item is not a directory.",
            ),
        );
    }
    if !nodes[sel].readable {
        return Ok(
            NavigationActionResult::blocked(
                "enter_directory",
                state.current_path.clone(),
                "Permission denied for selected directory.",
            ),
        );
    }
    let target = nodes[sel].path.clone();
    let entries = match listing {
        Ok(entries) => entries,
        Err(e) => {
            return Err(e);
        },
    };
    state.last_child_path = Some(target.clone());
    state.current_path = target.clone();
    *nodes = entries;
    state.selected_index = 0;
    state.update_selected_path(nodes.as_slice());
    Ok(NavigationActionResult::changed("enter_directory", target, "Entered directory."))
}

/// Move to the parent directory.
///
/// `listing` is the caller's enumeration of the parent of the current path;
/// it is consulted only away from the filesystem root. At the root nothing
/// changes; otherwise the entry list is replaced and the selection lands on
/// the directory just exited where the parent still lists it.
pub fn go_to_parent_directory(
    state: &mut SessionState,
    nodes: &mut Vec<TreeNode>,
    listing: Result<Vec<TreeNode>, String>,
) -> (r: Result<NavigationActionResult, String>)
    ensures
        ({
            let prev = old(state).current_path;
            match spec_parent_path(prev@) {
                None => {
                    &&& r matches Ok(a)
                    &&& a.outcome is NoChange
                    &&& a.message@ == "Already at filesystem root."@
                    &&& a.new_path@ == prev@
                    &&& *final(state) == *old(state)
                    &&& final(nodes)@ == old(nodes)@
                },
                Some(parent) => match listing {
                    Ok(entries) => {
                        &&& r matches Ok(a)
                        &&& a.outcome is Changed
                        &&& a.message@ == "Moved to parent directory."@
                        &&& a.new_path@ == parent
                        &&& final(nodes)@ == entries@
                        &&& final(state).current_path@ == parent
                        &&& final(state).selected_index as int == (if entries@.len() == 0 {
                            0int
                        } else {
                            match path_index_from(entries@, prev@, 0) {
                                Some(i) => i,
                                None => 0int,
                            }
                        })
                        &&& selection_ok(
                            final(state).selected_index as int,
                            final(nodes)@.len() as int,
                        )
                        &&& final(state).selected_path@ == (if final(state).selected_index
                            < entries@.len() {
                            entries@[final(state).selected_index as int].path@
                        } else {
                            parent
                        })
                        &&& *final(state) == (SessionState {
                            current_path: final(state).current_path,
                            selected_index: final(state).selected_index,
                            selected_path: final(state).selected_path,
                            ..*old(state)
                        })
                    },
                    Err(e) => {
                        &&& r matches Err(e2) && e2@ == e@
                        &&& *final(state) == *old(state)
                        &&& final(nodes)@ == old(nodes)@
                    },
                },
            }
        }),
{
    let current = state.current_path.clone();
    let parent = match crate::listing::parent_path(current.as_str()) {
        None => {
            return Ok(
                NavigationActionResult::no_change(
                    "go_parent",
                    current,
                    "Already at filesystem root.",
                ),
            );
        },
        Some(p) => p,
    };
    let entries = match listing {
        Ok(entries) => entries,
        Err(e) => {
            return Err(e);
        },
    };
    state.current_path = parent.clone();
    *nodes = entries;
    state.restore_or_default_selection(nodes.as_slice(), Some(&current));
    state.update_selected_path(nodes.as_slice());
    Ok(NavigationActionResult::changed("go_parent", parent, "Moved to parent directory."))
}

/// Re-list the current directory, keeping the selected path selected where
/// it is still listed.
///
/// `listing` is the caller's fresh enumeration of the current path.
pub fn refresh_current_directory(
    state: &mut SessionState,
    nodes: &mut Vec<TreeNode>,
    listing: Result<Vec<TreeNode>, String>,
) -> (r: Result<NavigationActionResult, String>)
    ensures
        ({
            let sel = old(state).selected_index as int;
            match listing {
                Ok(entries) => {
                    &&& r matches Ok(a)
                    &&& a.outcome is Changed
                    &&& a.message@ == "Refreshed directory listing."@
                    &&& a.new_path@ == old(state).current_path@
                    &&& final(nodes)@ == entries@
                    &&& final(state).selected_index as int == (if entries@.len() == 0 {
                        0int
                    } else if 0 <= sel < old(nodes)@.len() {
                        match path_index_from(entries@, old(nodes)@[sel].path@, 0) {
                            Some(i) => i,
                            None => 0int,
                        }
                    } else {
                        0int
                    })
                    &&& selection_ok(final(state).selected_index as int, final(nodes)@.len() as int)
                    &&& final(state).selected_path@ == (if final(state).selected_index
                        < entries@.len() {
                        entries@[final(state).selected_index as int].path@
                    } else {
                        old(state).current_path@
                    })
                    &&& *final(state) == (SessionState {
                        selected_index: final(state).selected_index,
                        selected_path: final(state).selected_path,
                        ..*old(state)
                    })
                },
                Err(e) => {
                    &&& r matches Err(e2) && e2@ == e@
                    &&& *final(state) == *old(state)
                    &&& final(nodes)@ == old(nodes)@
                },
            }
        }),
{
    let previous_selected: Option<String> = if state.selected_index < nodes.len() {
        Some(nodes[state.selected_index].path.clone())
    } else {
        None
    };
    let entries = match listing {
        Ok(entries) => entries,
        Err(e) => {
            return Err(e);
        },
    };
    *nodes = entries;
    state.restore_or_default_selection(nodes.as_slice(), previous_selected.as_ref());
    state.update_selected_path(nodes.as_slice());
    Ok(
        NavigationActionResult::changed(
            "refresh_current_dir",
            state.current_path.clone(),
            "Refreshed directory listing.",
        ),
    )
}

/// Flip hidden-file visibility and re-list the current directory with the
/// new flag, keeping the selected path selected where it is still listed.
///
/// `listing` is the caller's enumeration of the current path made with the
/// flipped visibility. When it failed, the flag is still flipped, as the
/// failure strikes only the re-listing.
pub fn toggle_hidden_visibility(
    state: &mut SessionState,
    nodes: &mut Vec<TreeNode>,
    listing: Result<Vec<TreeNode>, String>,
) -> (r: Result<NavigationActionResult, String>)
    ensures
        final(state).show_hidden == !old(state).show_hidden,
        ({
            let sel = old(state).selected_index as int;
            match listing {
                Ok(entries) => {
                    &&& r matches Ok(a)
                    &&& a.outcome is Changed
                    &&& a.action@ == "toggle_hidden"@
                    &&& a.message@ == (if !old(state).show_hidden {
                        "Hidden files shown."@
                    } else {
                        "Hidden files hidden."@
                    })
                    &&& a.new_path@ == old(state).current_path@
                    &&& final(nodes)@ == entries@
                    &&& final(state).selected_index as int == (if entries@.len() == 0 {
                        0int
                    } else if 0 <= sel < old(nodes)@.len() {
                        match path_index_from(entries@, old(nodes)@[sel].path@, 0) {
                            Some(i) => i,
                            None => 0int,
                        }
                    } else {
                        0int
                    })
                    &&& selection_ok(final(state).selected_index as int, final(nodes)@.len() as int)
                    &&& *final(state) == (SessionState {
                        show_hidden: !old(state).show_hidden,
                        selected_index: final(state).selected_index,
                        selected_path: final(state).selected_path,
                        ..*old(state)
                    })
                },
                Err(e) => {
                    &&& r matches Err(e2) && e2@ == e@
                    &&& *final(state) == (SessionState {
                        show_hidden: !old(state).show_hidden,
                        ..*old(state)
                    })
                    &&& final(nodes)@ == old(nodes)@
                },
            }
        }),
{
    state.show_hidden = !state.show_hidden;
    let shown = state.show_hidden;
    let refreshed = refresh_current_directory(state, nodes, listing);
    match refreshed {
        Ok(mut result) => {
            result.action = "toggle_hidden";
            result.message = if shown {
                "Hidden files shown.".to_owned()
            } else {
                "Hidden files hidden.".to_owned()
            };
            proof {
                reveal_strlit("toggle_hidden");
            }
            Ok(result)
        },
        Err(e) => Err(e),
    }
}

/// A fresh listing of an unchanged directory puts the selection back where
/// it was: when paths are distinct (as the children of one directory are),
/// the first index holding the previously selected path is that same index.
pub proof fn lemma_refresh_preserves_position(nodes: Seq<TreeNode>, sel: int)
    requires
        forall|i: int, j: int| 0 <= i < j < nodes.len() ==> nodes[i].path@ != nodes[j].path@,
        0 <= sel < nodes.len(),
    ensures
        path_index_from(nodes, nodes[sel].path@, 0) == Some(sel),
{
    lemma_path_index_first(nodes, nodes[sel].path@, 0, sel);
}

/// Scanning from `from` finds `sel` when no entry between them shares the
/// path of entry `sel`.
proof fn lemma_path_index_first(nodes: Seq<TreeNode>, p: Seq<char>, from: int, sel: int)
    requires
        0 <= from <= sel < nodes.len(),
        nodes[sel].path@ == p,
        forall|i: int| from <= i < sel ==> nodes[i].path@ != p,
    ensures
        path_index_from(nodes, p, from) == Some(sel),
    decreases sel - from,
{
    if from < sel {
        lemma_path_index_first(nodes, p, from + 1, sel);
    }
}

} // verus!
