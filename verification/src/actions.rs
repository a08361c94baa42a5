//! The resolved user actions and their configuration names.
use vstd::prelude::*;

use crate::text::chars_eq;
use crate::text::chars_of;

verus! {

/// Everything a key press can be resolved to.
#[derive(Debug, Clone, Copy, PartialEq, Eq, Hash, Structural)]
pub enum Action {
    MoveUp,
    MoveDown,
    Expand,
    Collapse,
    Open,
    ExitFullscreenPreview,
    SwitchFocus,
    PageUp,
    PageDown,
    PreviewScrollUp,
    PreviewScrollDown,
    TogglePreviewLineNumbers,
    TogglePreviewWrap,
    ToggleHelp,
    ToggleHidden,
    ResizePreviewNarrower,
    ResizePreviewWider,
    Quit,
}

/// The action one configuration name stands for.
pub open spec fn spec_action_from_name(s: Seq<char>) -> Option<Action> {
    if s == "move_up"@ {
        Some(Action::MoveUp)
    } else if s == "move_down"@ {
        Some(Action::MoveDown)
    } else if s == "expand_node"@ {
        Some(Action::Expand)
    } else if s == "collapse_node"@ {
        Some(Action::Collapse)
    } else if s == "open_node"@ {
        Some(Action::Open)
    } else if s == "exit_fullscreen_preview"@ {
        Some(Action::ExitFullscreenPreview)
    } else if s == "switch_focus"@ {
        Some(Action::SwitchFocus)
    } else if s == "page_up"@ {
        Some(Action::PageUp)
    } else if s == "page_down"@ {
        Some(Action::PageDown)
    } else if s == "preview_scroll_up"@ {
        Some(Action::PreviewScrollUp)
    } else if s == "preview_scroll_down"@ {
        Some(Action::PreviewScrollDown)
    } else if s == "toggle_preview_line_numbers"@ {
        Some(Action::TogglePreviewLineNumbers)
    } else if s == "toggle_preview_wrap"@ {
        Some(Action::TogglePreviewWrap)
    } else if s == "toggle_help"@ {
        Some(Action::ToggleHelp)
    } else if s == "toggle_hidden"@ {
        Some(Action::ToggleHidden)
    } else if s == "resize_preview_narrower"@ {
        Some(Action::ResizePreviewNarrower)
    } else if s == "resize_preview_wider"@ {
        Some(Action::ResizePreviewWider)
    } else if s == "quit"@ {
        Some(Action::Quit)
    } else {
        None
    }
}

/// Resolve a configuration name to its action.
pub fn action_from_name(name: &str) -> (r: Option<Action>)
    ensures
        r == spec_action_from_name(name@),
{
    let cs = chars_of(name);
    if chars_eq(&cs, &chars_of("move_up")) {
        Some(Action::MoveUp)
    } else if chars_eq(&cs, &chars_of("move_down")) {
        Some(Action::MoveDown)
    } else if chars_eq(&cs, &chars_of("expand_node")) {
        Some(Action::Expand)
    } else if chars_eq(&cs, &chars_of("collapse_node")) {
        Some(Action::Collapse)
    } else if chars_eq(&cs, &chars_of("open_node")) {
        Some(Action::Open)
    } else if chars_eq(&cs, &chars_of("exit_fullscreen_preview")) {
        Some(Action::ExitFullscreenPreview)
    } else if chars_eq(&cs, &chars_of("switch_focus")) {
        Some(Action::SwitchFocus)
    } else if chars_eq(&cs, &chars_of("page_up")) {
        Some(Action::PageUp)
    } else if chars_eq(&cs, &chars_of("page_down")) {
        Some(Action::PageDown)
    } else if chars_eq(&cs, &chars_of("preview_scroll_up")) {
        Some(Action::PreviewScrollUp)
    } else if chars_eq(&cs, &chars_of("preview_scroll_down")) {
        Some(Action::PreviewScrollDown)
    } else if chars_eq(&cs, &chars_of("toggle_preview_line_numbers")) {
        Some(Action::TogglePreviewLineNumbers)
    } else if chars_eq(&cs, &chars_of("toggle_preview_wrap")) {
        Some(Action::TogglePreviewWrap)
    } else if chars_eq(&cs, &chars_of("toggle_help")) {
        Some(Action::ToggleHelp)
    } else if chars_eq(&cs, &chars_of("toggle_hidden")) {
        Some(Action::ToggleHidden)
    } else if chars_eq(&cs, &chars_of("resize_preview_narrower")) {
        Some(Action::ResizePreviewNarrower)
    } else if chars_eq(&cs, &chars_of("resize_preview_wider")) {
        Some(Action::ResizePreviewWider)
    } else if chars_eq(&cs, &chars_of("quit")) {
        Some(Action::Quit)
    } else {
        None
    }
}

} // verus!
