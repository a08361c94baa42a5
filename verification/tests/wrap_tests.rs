use fpv::preview_doc::{SegmentStyle, StyledPreviewSegment};
use fpv::wrap::wrap_styled_spans;

fn seg(text: &str) -> StyledPreviewSegment {
    StyledPreviewSegment {
        text: text.to_string(),
        style: SegmentStyle::plain(),
    }
}

fn line_text(line: &[StyledPreviewSegment]) -> String {
    line.iter().map(|s| s.text.as_str()).collect()
}

#[test]
fn short_line_stays_whole() {
    let spans = vec![seg("hello")];
    let wrapped = wrap_styled_spans(&spans, 10);
    assert_eq!(wrapped.len(), 1);
    assert_eq!(line_text(&wrapped[0]), "hello");
}

#[test]
fn long_line_wraps_at_display_width() {
    let spans = vec![seg("abcdefghij")];
    let wrapped = wrap_styled_spans(&spans, 4);
    let texts: Vec<String> = wrapped.iter().map(|l| line_text(l)).collect();
    assert_eq!(texts, vec!["abcd", "efgh", "ij"]);
}

#[test]
fn empty_input_still_emits_one_line() {
    let spans: Vec<StyledPreviewSegment> = Vec::new();
    let wrapped = wrap_styled_spans(&spans, 8);
    assert_eq!(wrapped.len(), 1);
    assert!(wrapped[0].is_empty());
}

#[test]
fn empty_segments_are_dropped() {
    let spans = vec![seg(""), seg("ab"), seg("")];
    let wrapped = wrap_styled_spans(&spans, 8);
    assert_eq!(wrapped.len(), 1);
    assert_eq!(wrapped[0].len(), 1);
    assert_eq!(line_text(&wrapped[0]), "ab");
}

#[test]
fn style_boundaries_split_segments_within_a_line() {
    let mut styled = seg("cd");
    styled.style.bold = true;
    let spans = vec![seg("ab"), styled];
    let wrapped = wrap_styled_spans(&spans, 10);
    assert_eq!(wrapped.len(), 1);
    assert_eq!(wrapped[0].len(), 2);
    assert_eq!(wrapped[0][0].text, "ab");
    assert_eq!(wrapped[0][1].text, "cd");
    assert!(wrapped[0][1].style.bold);
}

#[test]
fn wide_characters_count_two_columns() {
    let spans = vec![seg("日本語です")];
    let wrapped = wrap_styled_spans(&spans, 4);
    let texts: Vec<String> = wrapped.iter().map(|l| line_text(l)).collect();
    assert_eq!(texts, vec!["日本", "語で", "す"]);
}

#[test]
fn zero_width_requests_still_make_progress() {
    let spans = vec![seg("abc")];
    let wrapped = wrap_styled_spans(&spans, 0);
    let texts: Vec<String> = wrapped.iter().map(|l| line_text(l)).collect();
    assert_eq!(texts, vec!["a", "b", "c"]);
}
