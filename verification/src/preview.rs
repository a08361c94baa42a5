//! The preview pipeline: turn the bytes of the selected entry into a
//! renderable document, with binary detection, a size cap, an encoding
//! fallback and syntax highlighting.
use vstd::prelude::*;

use crate::highlight::render_with_highlight;
use crate::highlight::spec_has_config;
use crate::highlight::spec_highlight_language_of;
use crate::highlight::spec_language_id;
use crate::highlight::HighlightContext;
use crate::node::NodeType;
use crate::node::TreeNode;
use crate::preview_doc::ContentType;
use crate::preview_doc::LoadState;
use crate::preview_doc::PreviewDocument;
use crate::preview_doc::PreviewFallbackReason;
use crate::text::decode_lossy;
use crate::text::decode_strict;
use crate::text::lossy_decode;
use crate::text::subrange_bytes;
use vstd::string::StringExecFns;
use vstd::utf8::decode_utf8;
use vstd::utf8::valid_utf8;

verus! {

pub const BINARY_SAMPLE: usize = 1024;

pub const HIGHLIGHT_MAX_BYTES: usize = 262144;

/// Whether the data looks like text: no NUL byte among its first 1,024
/// bytes. A NUL further into the data is deliberately not looked for.
pub open spec fn spec_is_probably_text(data: Seq<u8>) -> bool {
    forall|i: int| 0 <= i < data.len() && i < BINARY_SAMPLE ==> data[i] != 0
}

/// Whether the data looks like text, by its first bytes.
pub fn is_probably_text(data: &Vec<u8>) -> (r: bool)
    ensures
        r == spec_is_probably_text(data@),
{
    let n = data.len();
    let upto = if n <= BINARY_SAMPLE {
        n
    } else {
        BINARY_SAMPLE
    };
    let mut i: usize = 0;
    while i < upto
        invariant
            i <= upto <= n,
            n == data@.len(),
            upto == (if n <= BINARY_SAMPLE {
                n as int
            } else {
                BINARY_SAMPLE as int
            }),
            forall|j: int| 0 <= j < i ==> data@[j] != 0,
        decreases upto - i,
    {
        if data[i] == 0 {
            return false;
        }
        i = i + 1;
    }
    true
}

/// The preview excerpt for decoded text: the text itself, a truncation
/// marker appended when the byte cap cut it short.
pub open spec fn spec_excerpt(text: Seq<char>, truncated: bool) -> Seq<char> {
    if truncated {
        text + "\n\n[truncated]"@
    } else {
        text
    }
}

/// Build a preview document for one file's bytes.
///
/// `data` is the caller's read of the file (`None` when the read failed).
/// A failed read yields an error document; a NUL byte among the first 1,024
/// bytes classifies the file binary; bytes beyond `max_bytes` are dropped
/// and mark the document truncated; undecodable bytes fall back to a lossy
/// plain-text rendering, never highlighted; decodable text beyond the
/// highlight size guard stays plain; anything else is handed to the
/// highlighter, which itself degrades to plain text rather than fail.
pub fn load_preview(
    path: &str,
    data: Option<Vec<u8>>,
    max_bytes: usize,
    ctx: &HighlightContext,
) -> (doc: PreviewDocument)
    ensures
        doc.source_path@ == path@,
        match data {
            None => {
                &&& doc.load_state is Error
                &&& doc.error_message matches Some(m) && m@
                    == "Cannot read file (permission denied or missing)."@
                &&& doc.content_type is PlainText
                &&& doc.language_id is None
                &&& doc.content_excerpt@ == Seq::<char>::empty()
                &&& doc.styled_lines@.len() == 0
                &&& !doc.truncated
            },
            Some(bytes) => {
                if !spec_is_probably_text(bytes@) {
                    &&& doc.load_state is Binary
                    &&& doc.content_type is Unsupported
                    &&& doc.error_message matches Some(m) && m@
                        == "Binary file preview is not supported."@
                    &&& doc.language_id is None
                    &&& doc.content_excerpt@ == Seq::<char>::empty()
                    &&& doc.styled_lines@.len() == 0
                    &&& !doc.truncated
                } else {
                    let truncated = bytes@.len() > max_bytes;
                    let clip = if truncated {
                        bytes@.take(max_bytes as int)
                    } else {
                        bytes@
                    };
                    &&& doc.load_state is Ready
                    &&& doc.truncated == truncated
                    &&& doc.error_message is None
                    &&& if !valid_utf8(clip) {
                        &&& doc.content_type is PlainText
                        &&& doc.fallback_reason == Some(PreviewFallbackReason::DecodeUncertain)
                        &&& doc.language_id is None
                        &&& doc.styled_lines@.len() == 0
                        &&& doc.content_excerpt@ == spec_excerpt(lossy_decode(clip), truncated)
                    } else if clip.len() > HIGHLIGHT_MAX_BYTES {
                        &&& doc.content_type is PlainText
                        &&& doc.fallback_reason == Some(PreviewFallbackReason::TooLarge)
                        &&& doc.language_id is None
                        &&& doc.styled_lines@.len() == 0
                        &&& doc.content_excerpt@ == spec_excerpt(decode_utf8(clip), truncated)
                    } else {
                        &&& doc.content_excerpt@ == spec_excerpt(decode_utf8(clip), truncated)
                        &&& doc.fallback_reason != Some(PreviewFallbackReason::DecodeUncertain)
                        &&& doc.fallback_reason != Some(PreviewFallbackReason::TooLarge)
                        &&& (doc.fallback_reason is None ==> doc.content_type is Highlighted
                            && doc.language_id is Some)
                        &&& (doc.fallback_reason is Some ==> doc.content_type is PlainText
                            && doc.language_id is None && doc.styled_lines@.len() == 0)
                        &&& (spec_highlight_language_of(path@) is None
                            ==> doc.fallback_reason == Some(
                            PreviewFallbackReason::UnsupportedExtension,
                        ))
                        &&& (match spec_highlight_language_of(path@) {
                            Some(l) => {
                                &&& (!spec_has_config(*ctx, l) ==> doc.fallback_reason == Some(
                                    PreviewFallbackReason::UnsupportedExtension,
                                ))
                                &&& (doc.content_type is Highlighted ==> (doc.language_id
                                    matches Some(id) && id@ == spec_language_id(l)))
                            },
                            None => true,
                        })
                    }
                }
            },
        },
{
    let data = match data {
        None => {
            let mut doc = PreviewDocument::default();
            doc.source_path = path.to_owned();
            doc.load_state = LoadState::Error;
            doc.error_message = Some(
                "Cannot read file (permission denied or missing).".to_owned(),
            );
            return doc;
        },
        Some(d) => d,
    };
    if !is_probably_text(&data) {
        let mut doc = PreviewDocument::default();
        doc.source_path = path.to_owned();
        doc.load_state = LoadState::Binary;
        doc.content_type = ContentType::Unsupported;
        doc.error_message = Some("Binary file preview is not supported.".to_owned());
        return doc;
    }
    let truncated = data.len() > max_bytes;
    let clip: Vec<u8> = if truncated {
        subrange_bytes(&data, 0, max_bytes)
    } else {
        data
    };
    let mut doc = PreviewDocument::default();
    doc.source_path = path.to_owned();
    doc.load_state = LoadState::Ready;
    doc.truncated = truncated;
    let content = match decode_strict(clip.as_slice()) {
        None => {
            let text = decode_lossy(clip.as_slice());
            doc.content_type = ContentType::PlainText;
            doc.fallback_reason = Some(PreviewFallbackReason::DecodeUncertain);
            doc.content_excerpt = with_truncation_marker(text, truncated);
            return doc;
        },
        Some(s) => s,
    };
    if clip.len() > HIGHLIGHT_MAX_BYTES {
        doc.content_type = ContentType::PlainText;
        doc.fallback_reason = Some(PreviewFallbackReason::TooLarge);
        doc.content_excerpt = with_truncation_marker(content, truncated);
        return doc;
    }
    let rendered = render_with_highlight(ctx, path, content.as_str());
    doc.content_type = rendered.content_type;
    doc.language_id = rendered.language_id;
    doc.styled_lines = rendered.styled_lines;
    doc.fallback_reason = rendered.fallback_reason;
    doc.content_excerpt = with_truncation_marker(rendered.rendered_text, truncated);
    doc
}

/// The text with the truncation marker appended when the cap cut it short.
fn with_truncation_marker(text: String, truncated: bool) -> (r: String)
    ensures
        r@ == spec_excerpt(text@, truncated),
{
    if truncated {
        let mut r = text;
        r.append("\n\n[truncated]");
        r
    } else {
        text
    }
}

/// The label of one entry inside a directory preview: directories end with
/// a slash, symlinks are prefixed with an at sign, unknown entries with a
/// question mark.
pub open spec fn spec_entry_label(n: TreeNode) -> Seq<char> {
    match n.node_type {
        NodeType::Directory => n.name@ + "/"@,
        NodeType::Symlink => "@"@ + n.name@,
        NodeType::Unknown => "?"@ + n.name@,
        NodeType::File => n.name@,
    }
}

/// The label of one entry inside a directory preview.
pub fn directory_entry_label(node: &TreeNode) -> (r: String)
    ensures
        r@ == spec_entry_label(*node),
{
    match node.node_type {
        NodeType::Directory => {
            let mut s = node.name.clone();
            s.append("/");
            s
        },
        NodeType::Symlink => {
            let mut s = "@".to_owned();
            s.append(node.name.as_str());
            s
        },
        NodeType::Unknown => {
            let mut s = "?".to_owned();
            s.append(node.name.as_str());
            s
        },
        NodeType::File => node.name.clone(),
    }
}

/// The entry labels joined with newlines.
pub open spec fn spec_labels_joined(entries: Seq<TreeNode>) -> Seq<char>
    decreases entries.len(),
{
    if entries.len() == 0 {
        Seq::empty()
    } else if entries.len() == 1 {
        spec_entry_label(entries[0])
    } else {
        spec_labels_joined(entries.drop_last()) + "\n"@ + spec_entry_label(entries.last())
    }
}

/// What a directory preview shows: its entry labels line by line, or a
/// placeholder for an empty directory.
pub open spec fn spec_dir_preview_text(entries: Seq<TreeNode>) -> Seq<char> {
    if entries.len() == 0 {
        "(empty directory)"@
    } else {
        spec_labels_joined(entries)
    }
}

/// Build the preview document for a directory from its prepared listing:
/// type-prefixed entry names, one per line, and never an error for a
/// readable directory.
///
/// `listing` is the caller's enumeration of `path`, already filtered and in
/// listing order.
pub fn directory_preview(path: &str, listing: Result<Vec<TreeNode>, String>) -> (doc:
    PreviewDocument)
    ensures
        doc.source_path@ == path@,
        match listing {
            Ok(entries) => {
                &&& doc.load_state is Ready
                &&& doc.content_excerpt@ == spec_dir_preview_text(entries@)
                &&& doc.error_message is None
                &&& doc.content_type is PlainText
                &&& doc.fallback_reason is None
                &&& !doc.truncated
            },
            Err(_) => {
                &&& doc.load_state is Error
                &&& doc.error_message is Some
            },
        },
{
    let mut doc = PreviewDocument::default();
    doc.source_path = path.to_owned();
    match listing {
        Ok(entries) => {
            doc.load_state = LoadState::Ready;
            if entries.len() == 0 {
                doc.content_excerpt = "(empty directory)".to_owned();
                return doc;
            }
            let mut text = directory_entry_label(&entries[0]);
            proof {
                assert(entries@.take(1) =~= seq![entries@[0]]);
                assert(spec_labels_joined(entries@.take(1)) == spec_entry_label(entries@[0]));
            }
            let n = entries.len();
            let mut i: usize = 1;
            while i < n
                invariant
                    1 <= i <= n,
                    n == entries@.len(),
                    text@ == spec_labels_joined(entries@.take(i as int)),
                decreases n - i,
            {
                text.append("\n");
                text.append(directory_entry_label(&entries[i]).as_str());
                proof {
                    assert(entries@.take(i + 1).drop_last() =~= entries@.take(i as int));
                    assert(entries@.take(i + 1).last() == entries@[i as int]);
                }
                i = i + 1;
            }
            proof {
                assert(entries@.take(n as int) =~= entries@);
            }
            doc.content_excerpt = text;
            doc
        },
        Err(_) => {
            doc.load_state = LoadState::Error;
            doc.error_message = Some("Cannot read directory.".to_owned());
            doc
        },
    }
}

/// The error document shown while nothing is selected.
pub fn no_selection_preview() -> (doc: PreviewDocument)
    ensures
        doc.load_state is Error,
        doc.error_message matches Some(m) && m@ == "No selection"@,
{
    let mut doc = PreviewDocument::default();
    doc.load_state = LoadState::Error;
    doc.error_message = Some("No selection".to_owned());
    doc
}

} // verus!
