use fpv::highlight::{language_for_path, style_for_capture, HighlightLanguage};
use fpv::preview_doc::SegmentStyle;
use fpv::status::{navigation_status_message, StatusLevel, StatusMessage};

#[test]
fn language_table_resolves_display_names() {
    assert_eq!(language_for_path("src/main.rs"), Some("Rust".to_string()));
    assert_eq!(language_for_path("a/b/page.HTML"), Some("HTML".to_string()));
    assert_eq!(language_for_path("deploy.yaml"), Some("YAML".to_string()));
    assert_eq!(language_for_path("notes.xyz"), None);
    assert_eq!(language_for_path("Makefile"), None);
}

#[test]
fn grammar_selection_is_case_insensitive() {
    assert_eq!(HighlightLanguage::for_path("App.TSX"), Some(HighlightLanguage::Tsx));
    assert_eq!(HighlightLanguage::for_path("x.c++"), Some(HighlightLanguage::Cpp));
    assert_eq!(HighlightLanguage::for_path("noext"), None);
    assert_eq!(HighlightLanguage::Tsx.language_id(), "TypeScript");
    assert_eq!(HighlightLanguage::Bash.language_id(), "Shell");
}

#[test]
fn capture_styles_follow_prefixes() {
    let keyword = style_for_capture("keyword");
    assert!(keyword.bold);
    assert!(keyword.foreground.is_some());

    let comment = style_for_capture("comment.line");
    assert!(comment.italic);

    assert_eq!(style_for_capture("no-such-capture"), SegmentStyle::plain());
}

#[test]
fn status_messages_carry_level_and_text() {
    assert_eq!(StatusMessage::info("ok").level, StatusLevel::Info);
    assert_eq!(StatusMessage::warning("careful").level, StatusLevel::Warning);
    let err = StatusMessage::error("broken");
    assert_eq!(err.level, StatusLevel::Error);
    assert_eq!(err.text, "broken");
}

#[test]
fn navigation_status_text_is_the_result_message() {
    let result = fpv::navigation::NavigationActionResult::changed(
        "enter_directory",
        "/d/child".to_string(),
        "Entered directory.",
    );
    assert_eq!(navigation_status_message(&result), "Entered directory.");
}
