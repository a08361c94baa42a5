//! The renderable preview document and its styled text model.
use vstd::prelude::*;

verus! {

/// Lifecycle stage of a preview document.
#[derive(Debug, Clone, PartialEq, Eq, Structural)]
pub enum LoadState {
    Idle,
    Loading,
    Ready,
    Error,
    Binary,
}

/// How a ready preview's text should be displayed.
#[derive(Debug, Clone, PartialEq, Eq, Structural)]
pub enum ContentType {
    Highlighted,
    PlainText,
    Unsupported,
}

/// Why highlighting was skipped for a document that still shows text.
#[derive(Debug, Clone, PartialEq, Eq, Structural)]
pub enum PreviewFallbackReason {
    UnsupportedExtension,
    EngineFailure,
    TooLarge,
    DecodeUncertain,
}

/// A terminal color by its red, green and blue parts.
#[derive(Debug, Clone, Copy, PartialEq, Eq, Structural)]
pub struct RgbColor {
    pub red: u8,
    pub green: u8,
    pub blue: u8,
}

/// How one run of preview text is drawn.
#[derive(Debug, Clone, Copy, PartialEq, Eq, Structural)]
pub struct SegmentStyle {
    pub foreground: Option<RgbColor>,
    pub bold: bool,
    pub italic: bool,
    pub underlined: bool,
}

impl SegmentStyle {
    /// The style of unstyled text: default color, no emphasis.
    pub fn plain() -> (r: Self)
        ensures
            r == SegmentStyle::spec_plain(),
    {
        SegmentStyle { foreground: None, bold: false, italic: false, underlined: false }
    }

    /// The style of unstyled text.
    pub open spec fn spec_plain() -> Self {
        SegmentStyle { foreground: None, bold: false, italic: false, underlined: false }
    }
}

/// One styled run of text inside a preview line.
#[derive(Debug, Clone)]
pub struct StyledPreviewSegment {
    pub text: String,
    pub style: SegmentStyle,
}

/// One preview line: an ordered sequence of styled runs.
pub type StyledPreviewLine = Vec<StyledPreviewSegment>;

/// The view of a styled segment: its characters and its style.
pub open spec fn seg_view(s: StyledPreviewSegment) -> (Seq<char>, SegmentStyle) {
    (s.text@, s.style)
}

/// The view of one styled line.
pub open spec fn line_view(l: StyledPreviewLine) -> Seq<(Seq<char>, SegmentStyle)> {
    l@.map_values(|s: StyledPreviewSegment| seg_view(s))
}

/// The view of a sequence of styled lines.
pub open spec fn lines_view(ls: Seq<StyledPreviewLine>) -> Seq<Seq<(Seq<char>, SegmentStyle)>> {
    ls.map_values(|l: StyledPreviewLine| line_view(l))
}

/// A renderable document for the current selection.
#[derive(Debug, Clone)]
pub struct PreviewDocument {
    pub source_path: String,
    pub load_state: LoadState,
    pub content_type: ContentType,
    pub language_id: Option<String>,
    pub content_excerpt: String,
    pub styled_lines: Vec<StyledPreviewLine>,
    pub fallback_reason: Option<PreviewFallbackReason>,
    pub truncated: bool,
    pub error_message: Option<String>,
}

impl Default for PreviewDocument {
    /// An idle document with no content.
    fn default() -> (r: Self)
        ensures
            r.source_path@ == Seq::<char>::empty(),
            r.load_state is Idle,
            r.content_type is PlainText,
            r.language_id is None,
            r.content_excerpt@ == Seq::<char>::empty(),
            r.styled_lines@.len() == 0,
            r.fallback_reason is None,
            !r.truncated,
            r.error_message is None,
    {
        PreviewDocument {
            source_path: String::new(),
            load_state: LoadState::Idle,
            content_type: ContentType::PlainText,
            language_id: None,
            content_excerpt: String::new(),
            styled_lines: Vec::new(),
            fallback_reason: None,
            truncated: false,
            error_message: None,
        }
    }
}

} // verus!
