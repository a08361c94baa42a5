use fpv::highlight::HighlightContext;
use fpv::preview::{directory_preview, load_preview, no_selection_preview};
use fpv::preview_doc::{
    ContentType, LoadState, PreviewDocument, PreviewFallbackReason, SegmentStyle,
};
use fpv::{NodeType, TreeNode};

fn has_non_default_style(doc: &PreviewDocument) -> bool {
    let plain = SegmentStyle::plain();
    doc.styled_lines
        .iter()
        .flat_map(|line| line.iter())
        .any(|segment| segment.style != plain)
}

#[test]
fn preview_selects_highlight_for_known_extensions() {
    let ctx = HighlightContext::new();
    let doc = load_preview(
        "/tmp/sample/main.py",
        Some(b"print('ok')\n".to_vec()),
        1024,
        &ctx,
    );
    assert_eq!(doc.load_state, LoadState::Ready);
    assert_eq!(doc.content_type, ContentType::Highlighted);
    assert!(has_non_default_style(&doc));
}

#[test]
fn preview_selects_highlight_for_tsx_and_jsx() {
    let ctx = HighlightContext::new();
    let source = b"export const App = () => <div />;\n".to_vec();

    let tsx_doc = load_preview("/tmp/sample/app.tsx", Some(source.clone()), 1024, &ctx);
    assert_eq!(tsx_doc.load_state, LoadState::Ready);
    assert_eq!(tsx_doc.content_type, ContentType::Highlighted);
    assert!(has_non_default_style(&tsx_doc));

    let jsx_doc = load_preview("/tmp/sample/app.jsx", Some(source), 1024, &ctx);
    assert_eq!(jsx_doc.load_state, LoadState::Ready);
    assert_eq!(jsx_doc.content_type, ContentType::Highlighted);
    assert!(has_non_default_style(&jsx_doc));
}

#[test]
fn preview_selects_highlight_for_requested_common_file_types() {
    let cases: [(&str, &str); 5] = [
        ("readme.md", "# heading\n\ntext\n"),
        ("index.html", "<!doctype html><html><body>hi</body></html>\n"),
        ("data.json", "{\"a\": 1, \"b\": true}\n"),
        ("main.go", "package main\nfunc main() {}\n"),
        ("main.c", "int main(void) { return 0; }\n"),
    ];
    let ctx = HighlightContext::new();

    for (name, content) in cases {
        let path = format!("/tmp/sample/{name}");
        let doc = load_preview(&path, Some(content.as_bytes().to_vec()), 1024, &ctx);
        assert_eq!(doc.load_state, LoadState::Ready, "unexpected state for {name}");
        assert_eq!(
            doc.content_type,
            ContentType::Highlighted,
            "expected highlighting for {name}"
        );
    }
}

#[test]
fn markdown_preview_contains_non_default_styled_segments() {
    let ctx = HighlightContext::new();
    let doc = load_preview(
        "/tmp/sample/readme.md",
        Some(b"# Title\n\n* item\n".to_vec()),
        1024,
        &ctx,
    );
    assert_eq!(doc.load_state, LoadState::Ready);
    assert_eq!(doc.content_type, ContentType::Highlighted);
    assert!(has_non_default_style(&doc));
}

#[test]
fn preview_falls_back_plain_text_for_unknown_extension() {
    let ctx = HighlightContext::new();
    let doc = load_preview("/tmp/sample/notes.xyz", Some(b"hello\n".to_vec()), 1024, &ctx);
    assert_eq!(doc.load_state, LoadState::Ready);
    assert_eq!(doc.content_type, ContentType::PlainText);
    assert_eq!(doc.fallback_reason, Some(PreviewFallbackReason::UnsupportedExtension));
}

#[test]
fn toml_preview_falls_back_without_a_grammar() {
    let ctx = HighlightContext::new();
    let doc = load_preview(
        "/tmp/sample/config.toml",
        Some(b"name = \"x\"\n".to_vec()),
        1024,
        &ctx,
    );
    assert_eq!(doc.load_state, LoadState::Ready);
    assert_eq!(doc.content_type, ContentType::PlainText);
    assert_eq!(doc.fallback_reason, Some(PreviewFallbackReason::UnsupportedExtension));
}

#[test]
fn preview_marks_binary_files() {
    let ctx = HighlightContext::new();
    let doc = load_preview("/tmp/sample/blob.bin", Some(vec![0u8, 1, 2, 3]), 1024, &ctx);
    assert_eq!(doc.load_state, LoadState::Binary);
    assert_eq!(doc.content_type, ContentType::Unsupported);
    assert_eq!(
        doc.error_message.as_deref(),
        Some("Binary file preview is not supported.")
    );
    assert!(doc.content_excerpt.is_empty());
    assert!(doc.styled_lines.is_empty());
}

#[test]
fn nul_after_first_kilobyte_is_not_detected() {
    let ctx = HighlightContext::new();
    let mut data = vec![b'a'; 1024];
    data.push(0);
    let doc = load_preview("/tmp/sample/notes.xyz", Some(data), 1 << 20, &ctx);
    assert_eq!(doc.load_state, LoadState::Ready);
}

#[test]
fn large_supported_file_uses_plain_text_guard() {
    let ctx = HighlightContext::new();
    let data = "fn x() {}\n".repeat(50_000).into_bytes();
    let doc = load_preview("/tmp/sample/large.rs", Some(data), 1024 * 1024, &ctx);
    assert_eq!(doc.load_state, LoadState::Ready);
    assert_eq!(doc.content_type, ContentType::PlainText);
    assert_eq!(doc.fallback_reason, Some(PreviewFallbackReason::TooLarge));
}

#[test]
fn decode_uncertain_bytes_fall_back_to_plain_text() {
    let ctx = HighlightContext::new();
    let doc = load_preview(
        "/tmp/sample/broken.py",
        Some(vec![0x66u8, 0x6f, 0x80, 0x6f, 0x0a]),
        1024,
        &ctx,
    );
    assert_eq!(doc.load_state, LoadState::Ready);
    assert_eq!(doc.content_type, ContentType::PlainText);
    assert_eq!(doc.fallback_reason, Some(PreviewFallbackReason::DecodeUncertain));
}

#[test]
fn missing_file_returns_error_state_message() {
    let ctx = HighlightContext::new();
    let doc = load_preview("/tmp/fpv-not-found-file", None, 1024, &ctx);
    assert_eq!(
        doc.error_message.as_deref(),
        Some("Cannot read file (permission denied or missing).")
    );
    assert_eq!(doc.load_state, LoadState::Error);
    assert!(doc.content_excerpt.is_empty());
    assert!(doc.styled_lines.is_empty());
}

#[test]
fn truncated_content_ends_with_marker() {
    let ctx = HighlightContext::new();
    let doc = load_preview(
        "/tmp/sample/notes.xyz",
        Some(b"0123456789abcdef".to_vec()),
        8,
        &ctx,
    );
    assert!(doc.truncated);
    assert!(doc.content_excerpt.ends_with("[truncated]"));
    assert!(doc.content_excerpt.starts_with("01234567"));
}

#[test]
fn directory_preview_lists_typed_entries() {
    let entries = vec![
        TreeNode {
            path: "/d/child".to_string(),
            name: "child".to_string(),
            node_type: NodeType::Directory,
            depth: 0,
            expanded: false,
            readable: true,
            children_loaded: false,
        },
        TreeNode {
            path: "/d/a.txt".to_string(),
            name: "a.txt".to_string(),
            node_type: NodeType::File,
            depth: 0,
            expanded: false,
            readable: true,
            children_loaded: false,
        },
    ];
    let doc = directory_preview("/d", Ok(entries));
    assert_eq!(doc.load_state, LoadState::Ready);
    assert!(doc.error_message.is_none());
    assert_eq!(doc.content_excerpt, "child/\na.txt");
}

#[test]
fn empty_directory_preview_shows_placeholder() {
    let doc = directory_preview("/d", Ok(Vec::new()));
    assert_eq!(doc.load_state, LoadState::Ready);
    assert_eq!(doc.content_excerpt, "(empty directory)");
}

#[test]
fn unreadable_directory_preview_reports_error() {
    let doc = directory_preview("/d", Err("denied".to_string()));
    assert_eq!(doc.load_state, LoadState::Error);
    assert!(doc.error_message.is_some());
}

#[test]
fn no_selection_yields_error_document() {
    let doc = no_selection_preview();
    assert_eq!(doc.load_state, LoadState::Error);
    assert_eq!(doc.error_message.as_deref(), Some("No selection"));
}
