use fpv::actions::{action_from_name, Action};
use fpv::config::{
    load_user_keymap, merge_theme_profile, render_warning_text, StatusDisplayMode, ThemeProfile,
    UserConfig, UserKeymap, UserThemeConfig,
};

fn color_of<'a>(profile: &'a ThemeProfile, ext: &str) -> Option<&'a String> {
    profile
        .file_type_colors
        .iter()
        .find(|(k, _)| k == ext)
        .map(|(_, c)| c)
}

#[test]
fn theme_merge_overrides_selected_keys_only() {
    let defaults = ThemeProfile::default();
    let overrides = UserThemeConfig {
        directory_color: Some("blue".to_string()),
        fallback_file_color: None,
        hidden_dim_enabled: Some(false),
        file_type_colors: vec![("md".to_string(), "magenta".to_string())],
    };
    let merged = merge_theme_profile(defaults, &overrides);
    assert_eq!(merged.directory_color, "blue");
    assert_eq!(merged.fallback_file_color, "white");
    assert!(!merged.hidden_dim_enabled);
    assert_eq!(color_of(&merged, "md"), Some(&"magenta".to_string()));
    assert_eq!(color_of(&merged, "rs"), Some(&"cyan".to_string()));
}

#[test]
fn theme_merge_lowercases_user_values() {
    let defaults = ThemeProfile::default();
    let overrides = UserThemeConfig {
        directory_color: Some("Blue".to_string()),
        fallback_file_color: None,
        hidden_dim_enabled: None,
        file_type_colors: vec![("TOML".to_string(), "Magenta".to_string())],
    };
    let merged = merge_theme_profile(defaults, &overrides);
    assert_eq!(merged.directory_color, "blue");
    assert_eq!(color_of(&merged, "toml"), Some(&"magenta".to_string()));
}

#[test]
fn action_name_mapping_is_known() {
    let sample = UserKeymap {
        mappings: vec![("quit".to_string(), "q".to_string())],
    };
    assert!(sample.mappings.iter().any(|(k, _)| k == "quit"));
    let _ = Action::Quit;
}

#[test]
fn toggle_hidden_action_name_is_supported() {
    assert_eq!(action_from_name("toggle_hidden"), Some(Action::ToggleHidden));
}

#[test]
fn resize_preview_action_names_are_supported() {
    assert_eq!(
        action_from_name("resize_preview_narrower"),
        Some(Action::ResizePreviewNarrower)
    );
    assert_eq!(
        action_from_name("resize_preview_wider"),
        Some(Action::ResizePreviewWider)
    );
}

#[test]
fn preview_scrolling_action_names_are_supported() {
    assert_eq!(action_from_name("preview_scroll_up"), Some(Action::PreviewScrollUp));
    assert_eq!(action_from_name("preview_scroll_down"), Some(Action::PreviewScrollDown));
}

#[test]
fn preview_line_numbers_and_fullscreen_action_names_are_supported() {
    assert_eq!(
        action_from_name("toggle_preview_line_numbers"),
        Some(Action::TogglePreviewLineNumbers)
    );
    assert_eq!(
        action_from_name("exit_fullscreen_preview"),
        Some(Action::ExitFullscreenPreview)
    );
    assert_eq!(action_from_name("toggle_preview_wrap"), Some(Action::TogglePreviewWrap));
}

#[test]
fn unknown_action_names_are_rejected() {
    assert_eq!(action_from_name("warp_ten"), None);
    assert_eq!(action_from_name(""), None);
}

#[test]
fn user_keymap_carries_config_mappings() {
    let config = UserConfig {
        mappings: vec![("move_up".to_string(), "k".to_string())],
        theme: UserThemeConfig::default(),
        status_display_mode: Some(StatusDisplayMode::Title),
    };
    let keymap = load_user_keymap(config);
    assert_eq!(keymap.mappings.len(), 1);
    assert_eq!(keymap.mappings[0].0, "move_up");
}

#[test]
fn warning_text_joins_or_stays_empty() {
    assert_eq!(render_warning_text(&Vec::new()), "");
    let warnings = vec!["bad combo".to_string(), "unknown action".to_string()];
    assert_eq!(
        render_warning_text(&warnings),
        "Keymap warnings: bad combo; unknown action"
    );
}
