//! Pure presentation logic of the panes: what a preview document reads as,
//! line counting and numbering, metadata labels, and the header line.
use vstd::prelude::*;

use crate::current_dir::spec_truncate_status;
use crate::current_dir::truncate_for_status;
use crate::git::spec_label;
use crate::git::GitFileStatus;
use crate::git::GitRepoStatus;
use crate::node::NodeType;
use crate::preview_doc::ContentType;
use crate::preview_doc::LoadState;
use crate::preview_doc::PreviewDocument;
use crate::preview_doc::PreviewFallbackReason;
use crate::session::SelectedEntryMetadata;
use crate::session::SessionState;
use crate::text::chars_eq;
use crate::text::chars_of;
use crate::text::spec_decimal;
use crate::text::spec_lowercase;
use crate::text::spec_trim;
use crate::text::string_from_chars;
use crate::text::trim_chars;
use crate::highlight::eq_ignore_case;
use crate::highlight::HighlightLanguage;
use vstd::string::StringExecFns;

verus! {

/// The marker drawn before an entry's name, by its kind.
pub open spec fn spec_entry_prefix(t: NodeType) -> Seq<char> {
    match t {
        NodeType::Directory => "/"@,
        NodeType::File => ""@,
        NodeType::Symlink => "@"@,
        NodeType::Unknown => "?"@,
    }
}

/// The marker drawn before an entry's name.
pub fn entry_prefix(node_type: &NodeType) -> (r: &'static str)
    ensures
        r@ == spec_entry_prefix(*node_type),
{
    match node_type {
        NodeType::Directory => "/",
        NodeType::File => "",
        NodeType::Symlink => "@",
        NodeType::Unknown => "?",
    }
}

/// How many lines a flat text paints: one more than its newlines.
pub open spec fn spec_line_count(s: Seq<char>) -> int
    decreases s.len(),
{
    if s.len() == 0 {
        1
    } else {
        spec_line_count(s.drop_last()) + (if s.last() == '\n' {
            1int
        } else {
            0int
        })
    }
}

/// `v` pulled down to what a machine word can count.
pub open spec fn spec_count_capped(v: int) -> int {
    if v <= usize::MAX {
        v
    } else {
        usize::MAX as int
    }
}

/// Count the lines of a flat text.
pub fn line_count(text: &str) -> (r: usize)
    ensures
        r == spec_count_capped(spec_line_count(text@)),
{
    let cs = chars_of(text);
    let n = cs.len();
    let mut count: usize = 1;
    let mut i: usize = 0;
    while i < n
        invariant
            i <= n,
            n == cs@.len(),
            cs@ == text@,
            count == spec_count_capped(spec_line_count(text@.take(i as int))),
        decreases n - i,
    {
        proof {
            assert(text@.take(i + 1).drop_last() =~= text@.take(i as int));
            assert(text@.take(i + 1).last() == text@[i as int]);
        }
        if cs[i] == '\n' && count < usize::MAX {
            count = count + 1;
        }
        i = i + 1;
    }
    proof {
        assert(text@.take(n as int) =~= text@);
    }
    count
}

/// The reason tag written before a plain-text fallback document.
pub open spec fn spec_reason_tag(reason: PreviewFallbackReason) -> Seq<char> {
    match reason {
        PreviewFallbackReason::UnsupportedExtension => "unsupported-extension"@,
        PreviewFallbackReason::EngineFailure => "highlight-failed"@,
        PreviewFallbackReason::TooLarge => "large-file-guard"@,
        PreviewFallbackReason::DecodeUncertain => "decode-uncertain"@,
    }
}

/// The flat text a document paints: its error message for an error or
/// binary document, otherwise its excerpt, tagged with the fallback reason
/// when plain text fell back.
pub open spec fn spec_plain_text_for_doc(doc: PreviewDocument) -> Seq<char> {
    match doc.load_state {
        LoadState::Error | LoadState::Binary => match doc.error_message {
            Some(m) => m@,
            None => "Unable to render preview"@,
        },
        _ => {
            if doc.content_type is PlainText && doc.fallback_reason is Some {
                "[plain-text fallback: "@ + spec_reason_tag(doc.fallback_reason->0) + "]\n"@
                    + doc.content_excerpt@
            } else {
                doc.content_excerpt@
            }
        },
    }
}

/// The flat text a document paints.
pub fn plain_text_for_doc(doc: &PreviewDocument) -> (r: String)
    ensures
        r@ == spec_plain_text_for_doc(*doc),
{
    match doc.load_state {
        LoadState::Error | LoadState::Binary => match &doc.error_message {
            Some(m) => m.clone(),
            None => "Unable to render preview".to_owned(),
        },
        _ => {
            if matches!(doc.content_type, ContentType::PlainText) && doc.fallback_reason.is_some()
             {
                let reason = match &doc.fallback_reason {
                    Some(r) => r,
                    None => &PreviewFallbackReason::UnsupportedExtension,
                };
                let tag = match reason {
                    PreviewFallbackReason::UnsupportedExtension => "unsupported-extension",
                    PreviewFallbackReason::EngineFailure => "highlight-failed",
                    PreviewFallbackReason::TooLarge => "large-file-guard",
                    PreviewFallbackReason::DecodeUncertain => "decode-uncertain",
                };
                let mut out = "[plain-text fallback: ".to_owned();
                out.append(tag);
                out.append("]\n");
                out.append(doc.content_excerpt.as_str());
                out
            } else {
                doc.content_excerpt.clone()
            }
        },
    }
}

/// How many rows the document occupies: its styled lines when highlighted,
/// otherwise the lines of its flat text.
pub open spec fn spec_preview_total_lines(doc: PreviewDocument) -> int {
    if doc.content_type is Highlighted && doc.styled_lines@.len() > 0 {
        doc.styled_lines@.len() as int
    } else {
        spec_line_count(spec_plain_text_for_doc(doc))
    }
}

/// How many rows the document occupies.
pub fn preview_total_lines(doc: &PreviewDocument) -> (r: usize)
    ensures
        r == spec_count_capped(spec_preview_total_lines(*doc)),
{
    if matches!(doc.content_type, ContentType::Highlighted) && doc.styled_lines.len() > 0 {
        return doc.styled_lines.len();
    }
    let text = plain_text_for_doc(doc);
    line_count(text.as_str())
}

/// Whether the preview counts as unsupported for display purposes: binary,
/// unsupported content, any fallback, or plain text with no language.
pub open spec fn spec_is_unsupported_preview(doc: PreviewDocument) -> bool {
    doc.content_type is Unsupported || doc.load_state is Binary || doc.fallback_reason is Some || (
    doc.content_type is PlainText && doc.language_id is None)
}

/// Whether the preview counts as unsupported for display purposes.
pub fn is_unsupported_preview(doc: &PreviewDocument) -> (r: bool)
    ensures
        r == spec_is_unsupported_preview(*doc),
{
    matches!(doc.content_type, ContentType::Unsupported) || matches!(
        doc.load_state,
        LoadState::Binary,
    ) || doc.fallback_reason.is_some() || (matches!(doc.content_type, ContentType::PlainText)
        && doc.language_id.is_none())
}

/// The preview pane's title: the selected file's name, or a fixed title
/// while nothing useful is selected.
pub open spec fn spec_preview_title(state: SessionState) -> Seq<char> {
    if spec_trim(state.selected_metadata.filename@).len() == 0 || state.selected_metadata.filename@
        == "-"@ {
        "Preview"@
    } else {
        state.selected_metadata.filename@
    }
}

/// The preview pane's title.
pub fn preview_title_for_state(state: &SessionState) -> (r: String)
    ensures
        r@ == spec_preview_title(*state),
{
    let cs = chars_of(state.selected_metadata.filename.as_str());
    let trimmed = trim_chars(&cs);
    let dash = chars_of("-");
    if trimmed.len() == 0 || chars_eq(&cs, &dash) {
        "Preview".to_owned()
    } else {
        state.selected_metadata.filename.clone()
    }
}

/// The width of the line-number column: the digits of the largest line
/// number, at least two.
pub open spec fn spec_line_number_width(total_lines: int) -> int {
    let digits = spec_decimal(if total_lines >= 1 {
        total_lines
    } else {
        1
    }).len() as int;
    if digits >= 2 {
        digits
    } else {
        2
    }
}

/// The width of the line-number column.
pub fn line_number_width(total_lines: usize) -> (r: usize)
    ensures
        r == spec_line_number_width(total_lines as int),
{
    let n: u64 = if total_lines >= 1 {
        total_lines as u64
    } else {
        1
    };
    let digits = crate::text::decimal_chars(n);
    if digits.len() >= 2 {
        digits.len()
    } else {
        2
    }
}

/// The display name of a file type, by its lower-case extension.
pub open spec fn spec_type_name(ext: Seq<char>) -> Seq<char> {
    match crate::highlight::spec_display_language(ext) {
        Some(l) => l,
        None => "Unknown"@,
    }
}

/// The display name of a file type, by its lower-case extension.
pub fn type_name_for_extension(ext: &str) -> (r: String)
    ensures
        r@ == spec_type_name(ext@),
{
    match language_name_of_ext(ext) {
        Some(l) => l,
        None => "Unknown".to_owned(),
    }
}

/// The display language of an extension, through the language table.
fn language_name_of_ext(ext: &str) -> (r: Option<String>)
    ensures
        match r {
            Some(s) => crate::highlight::spec_display_language(ext@) == Some(s@),
            None => crate::highlight::spec_display_language(ext@) is None,
        },
{
    if crate::highlight::eq_ignore_case(ext, "yaml") || crate::highlight::eq_ignore_case(
        ext,
        "yml",
    ) {
        return Some("YAML".to_owned());
    }
    if crate::highlight::eq_ignore_case(ext, "xml") {
        return Some("XML".to_owned());
    }
    match language_for_ext_table(ext) {
        Some(l) => Some(l.language_id().to_owned()),
        None => None,
    }
}

/// The grammar an extension selects, as the table reads it.
fn language_for_ext_table(ext: &str) -> (r: Option<crate::highlight::HighlightLanguage>)
    ensures
        r == crate::highlight::spec_language_for_ext(ext@),
{
    if eq_ignore_case(ext, "bash") || eq_ignore_case(ext, "sh") || eq_ignore_case(ext, "zsh")
        || eq_ignore_case(ext, "ksh") {
        Some(HighlightLanguage::Bash)
    } else if eq_ignore_case(ext, "c") || eq_ignore_case(ext, "h") {
        Some(HighlightLanguage::C)
    } else if eq_ignore_case(ext, "cc") || eq_ignore_case(ext, "cp") || eq_ignore_case(ext, "cpp")
        || eq_ignore_case(ext, "cxx") || eq_ignore_case(ext, "c++") || eq_ignore_case(ext, "hpp")
        || eq_ignore_case(ext, "hh") || eq_ignore_case(ext, "hxx") {
        Some(HighlightLanguage::Cpp)
    } else if eq_ignore_case(ext, "css") {
        Some(HighlightLanguage::Css)
    } else if eq_ignore_case(ext, "go") {
        Some(HighlightLanguage::Go)
    } else if eq_ignore_case(ext, "html") || eq_ignore_case(ext, "htm") {
        Some(HighlightLanguage::Html)
    } else if eq_ignore_case(ext, "java") {
        Some(HighlightLanguage::Java)
    } else if eq_ignore_case(ext, "js") || eq_ignore_case(ext, "mjs") || eq_ignore_case(
        ext,
        "cjs",
    ) {
        Some(HighlightLanguage::JavaScript)
    } else if eq_ignore_case(ext, "jsx") {
        Some(HighlightLanguage::Jsx)
    } else if eq_ignore_case(ext, "json") {
        Some(HighlightLanguage::Json)
    } else if eq_ignore_case(ext, "md") || eq_ignore_case(ext, "markdown") {
        Some(HighlightLanguage::Markdown)
    } else if eq_ignore_case(ext, "py") {
        Some(HighlightLanguage::Python)
    } else if eq_ignore_case(ext, "rs") {
        Some(HighlightLanguage::Rust)
    } else if eq_ignore_case(ext, "toml") {
        Some(HighlightLanguage::Toml)
    } else if eq_ignore_case(ext, "ts") {
        Some(HighlightLanguage::TypeScript)
    } else if eq_ignore_case(ext, "tsx") {
        Some(HighlightLanguage::Tsx)
    } else {
        None
    }
}

/// The extension a file-type label reads: what follows the last dot of the
/// file name, also for a name that is nothing but a dotted suffix.
pub open spec fn spec_label_extension(name: Seq<char>) -> Option<Seq<char>> {
    let n = crate::highlight::spec_file_name(name);
    match crate::text::spec_find_last(n, "."@) {
        None => None,
        Some(i) => Some(crate::text::spec_skip_clamped(n, i + 1)),
    }
}

/// The file-type label of a file name: its type and lower-case extension,
/// or a placeholder when no usable extension exists.
pub open spec fn spec_file_type_label(filename: Seq<char>) -> Seq<char> {
    let trimmed = spec_trim(filename);
    if trimmed.len() == 0 || trimmed == "-"@ {
        "Unknown(none)"@
    } else {
        match spec_label_extension(trimmed) {
            Some(e) => {
                if e.len() == 0 {
                    "Unknown(none)"@
                } else {
                    let low = spec_lowercase(e);
                    spec_type_name(low) + "(."@ + low + ")"@
                }
            },
            None => "Unknown(none)"@,
        }
    }
}

/// The file-type label of a file name.
pub fn file_type_label(filename: &str) -> (r: String)
    ensures
        r@ == spec_file_type_label(filename@),
{
    let cs = chars_of(filename);
    let trimmed = trim_chars(&cs);
    let dash = chars_of("-");
    if trimmed.len() == 0 || chars_eq(&trimmed, &dash) {
        return "Unknown(none)".to_owned();
    }
    proof {
        reveal_strlit("/");
        reveal_strlit(".");
    }
    let name = match crate::text::find_last(&trimmed, "/", 1) {
        None => trimmed,
        Some(i) => {
            proof {
                crate::text::lemma_find_last_bounds(trimmed@, "/"@, trimmed@.len() - 1, i as int);
            }
            let n = trimmed.len();
            let name = crate::text::subrange_chars(&trimmed, i + 1, n);
            proof {
                assert(name@ =~= crate::text::spec_skip_clamped(trimmed@, i + 1));
            }
            name
        },
    };
    match crate::text::find_last(&name, ".", 1) {
        Some(i) => {
            proof {
                crate::text::lemma_find_last_bounds(name@, "."@, name@.len() - 1, i as int);
            }
            let n = name.len();
            let e = crate::text::subrange_chars(&name, i + 1, n);
            proof {
                assert(e@ =~= crate::text::spec_skip_clamped(name@, i + 1));
            }
            if e.len() == 0 {
                "Unknown(none)".to_owned()
            } else {
                let ext = string_from_chars(&e);
                let low = crate::text::lowercase_ascii(ext.as_str());
                let mut out = type_name_for_extension(low.as_str());
                out.append("(.");
                out.append(low.as_str());
                out.append(")");
                out
            }
        },
        None => "Unknown(none)".to_owned(),
    }
}

/// The metadata line under the preview: type, size, permissions and
/// modification time, truncated to the pane's width.
pub open spec fn spec_preview_metadata_line(m: SelectedEntryMetadata, width: int) -> Seq<char> {
    spec_truncate_status(
        spec_file_type_label(m.filename@) + " | "@ + m.size_text@ + " | "@ + m.permission_text@
            + " | "@ + m.modified_text@,
        width,
    )
}

/// The metadata line under the preview.
pub fn compose_preview_metadata_line(metadata: &SelectedEntryMetadata, width: usize) -> (r: String)
    ensures
        r@ == spec_preview_metadata_line(*metadata, width as int),
{
    let mut raw = file_type_label(metadata.filename.as_str());
    raw.append(" | ");
    raw.append(metadata.size_text.as_str());
    raw.append(" | ");
    raw.append(metadata.permission_text.as_str());
    raw.append(" | ");
    raw.append(metadata.modified_text.as_str());
    truncate_for_status(raw.as_str(), width)
}

/// The metadata line for the current selection, at the preview's width.
pub fn preview_border_metadata_for_state(state: &SessionState, width: usize) -> (r: String)
    ensures
        r@ == spec_preview_metadata_line(state.selected_metadata, width as int),
{
    compose_preview_metadata_line(&state.selected_metadata, width)
}

/// The header text before truncation: the current path, and the branch and
/// change count when a repository status is attached.
pub open spec fn spec_raw_header_line(state: SessionState) -> Seq<char> {
    match state.git_status {
        None => state.current_path@,
        Some(g) => {
            let changes = crate::git::spec_change_count(
                crate::git::entries_view(g.file_statuses@),
            );
            if changes == 0 {
                state.current_path@ + " git:("@ + g.branch@ + ")"@
            } else {
                state.current_path@ + " git:("@ + g.branch@ + ") ["@ + spec_decimal(
                    changes as int,
                ) + " changes]"@
            }
        },
    }
}

/// The header text before truncation.
///
/// The session's current path is shown as it stands; the caller keeps it
/// absolute and normalized.
pub fn raw_current_directory_header_line(state: &SessionState) -> (r: String)
    ensures
        r@ == spec_raw_header_line(*state),
{
    let mut out = String::new();
    out.append(state.current_path.as_str());
    match &state.git_status {
        None => out,
        Some(g) => {
            let changes = g.change_count();
            out.append(" git:(");
            out.append(g.branch.as_str());
            if changes == 0 {
                out.append(")");
            } else {
                out.append(") [");
                let d = crate::text::decimal_string(changes as u64);
                out.append(d.as_str());
                out.append(" changes]");
            }
            out
        },
    }
}

/// The header line, truncated to the pane's width.
pub fn current_directory_header_line(state: &SessionState, width: usize) -> (r: String)
    ensures
        r@ == spec_truncate_status(spec_raw_header_line(*state), width as int),
{
    let raw = raw_current_directory_header_line(state);
    truncate_for_status(raw.as_str(), width)
}

/// Where the first slash-separated piece of `s` ends.
pub open spec fn spec_slash_cut(s: Seq<char>) -> int {
    match crate::text::spec_find_from(s, seq!['/'], 0) {
        Some(i) => if 0 <= i < s.len() {
            i
        } else {
            s.len() as int
        },
        None => s.len() as int,
    }
}

/// The slash-separated pieces of a path; a trailing slash ends the last
/// piece rather than opening an empty one.
pub open spec fn spec_split_slash(s: Seq<char>) -> Seq<Seq<char>>
    decreases s.len(),
{
    if s.len() == 0 {
        Seq::empty()
    } else {
        let cut = spec_slash_cut(s);
        let rest = s.skip(
            if cut + 1 <= s.len() {
                cut + 1
            } else {
                s.len() as int
            },
        );
        seq![s.take(cut)] + spec_split_slash(rest)
    }
}

/// The pieces that survive normalization: everything but empty pieces and
/// bare dots.
pub open spec fn spec_keep_parts(parts: Seq<Seq<char>>) -> Seq<Seq<char>>
    decreases parts.len(),
{
    if parts.len() == 0 {
        Seq::empty()
    } else {
        let rest = spec_keep_parts(parts.drop_last());
        if parts.last().len() > 0 && parts.last() != "."@ {
            rest.push(parts.last())
        } else {
            rest
        }
    }
}

/// Pieces joined with single slashes.
pub open spec fn spec_join_components(parts: Seq<Seq<char>>) -> Seq<char>
    decreases parts.len(),
{
    if parts.len() == 0 {
        Seq::empty()
    } else if parts.len() == 1 {
        parts[0]
    } else {
        spec_join_components(parts.drop_last()) + "/"@ + parts.last()
    }
}

/// A path with empty and bare-dot components dropped and slashes collapsed,
/// its leading slash kept; `.` when nothing remains.
pub open spec fn spec_normalize_display_path(p: Seq<char>) -> Seq<char> {
    let parts = spec_keep_parts(spec_split_slash(p));
    let lead: Seq<char> = if p.len() > 0 && p[0] == '/' {
        "/"@
    } else {
        ""@
    };
    let joined = lead + spec_join_components(parts);
    if joined.len() == 0 {
        "."@
    } else {
        joined
    }
}

/// The slash-separated pieces of a path.
fn split_slash(cs: &Vec<char>) -> (r: Vec<Vec<char>>)
    ensures
        r@.map_values(|l: Vec<char>| l@) == spec_split_slash(cs@),
{
    let n = cs.len();
    let mut out: Vec<Vec<char>> = Vec::new();
    let mut pos: usize = 0;
    proof {
        assert(cs@.skip(0) =~= cs@);
    }
    loop
        invariant
            pos <= n,
            n == cs@.len(),
            spec_split_slash(cs@) == out@.map_values(|l: Vec<char>| l@) + spec_split_slash(
                cs@.skip(pos as int),
            ),
        decreases n - pos,
    {
        if pos == n {
            proof {
                assert(spec_split_slash(cs@.skip(pos as int)) =~= Seq::<Seq<char>>::empty());
                assert(out@.map_values(|l: Vec<char>| l@) + Seq::<Seq<char>>::empty()
                    =~= out@.map_values(|l: Vec<char>| l@));
            }
            return out;
        }
        let ghost t = cs@.skip(pos as int);
        let found = crate::text::find_from(cs, "/", pos);
        proof {
            reveal_strlit("/");
            assert("/"@ =~= seq!['/']);
            crate::text::lemma_find_in_skip(cs@, seq!['/'], pos as int, 0);
        }
        match found {
            Some(j) => {
                proof {
                    crate::text::lemma_find_from_bounds(cs@, seq!['/'], pos as int, j as int);
                    assert(spec_slash_cut(t) == j - pos);
                }
                let piece = crate::text::subrange_chars(cs, pos, j);
                proof {
                    assert(piece@ =~= t.take(j - pos));
                }
                out.push(piece);
                proof {
                    assert(t.skip(j - pos + 1) =~= cs@.skip(j + 1));
                    assert(out@.map_values(|l: Vec<char>| l@) =~= out@.drop_last().map_values(
                        |l: Vec<char>| l@,
                    ).push(t.take(j - pos)));
                    assert(out@.drop_last().map_values(|l: Vec<char>| l@).push(t.take(j - pos))
                        + spec_split_slash(cs@.skip(j + 1)) =~= out@.drop_last().map_values(
                        |l: Vec<char>| l@,
                    ) + (seq![t.take(j - pos)] + spec_split_slash(cs@.skip(j + 1))));
                }
                pos = j + 1;
            },
            None => {
                proof {
                    assert(spec_slash_cut(t) == t.len());
                }
                let piece = crate::text::subrange_chars(cs, pos, n);
                proof {
                    assert(piece@ =~= t.take(t.len() as int));
                }
                out.push(piece);
                proof {
                    assert(t.skip(t.len() as int) =~= Seq::<char>::empty());
                    assert(spec_split_slash(Seq::<char>::empty()) =~= Seq::<Seq<char>>::empty());
                    assert(spec_split_slash(t) =~= seq![t.take(t.len() as int)]);
                    assert(out@.map_values(|l: Vec<char>| l@) =~= out@.drop_last().map_values(
                        |l: Vec<char>| l@,
                    ).push(piece@));
                    assert(out@.drop_last().map_values(|l: Vec<char>| l@).push(piece@)
                        =~= out@.drop_last().map_values(|l: Vec<char>| l@) + seq![piece@]);
                }
                return out;
            },
        }
    }
}

/// Normalize a path for display: empty and bare-dot components go, slashes
/// collapse, a leading slash stays; a path with nothing left reads `.`.
pub fn normalize_display_path(path: &str) -> (r: String)
    ensures
        r@ == spec_normalize_display_path(path@),
{
    let cs = chars_of(path);
    let parts = split_slash(&cs);
    let dot = chars_of(".");
    let n = parts.len();
    let mut kept: Vec<Vec<char>> = Vec::new();
    let mut i: usize = 0;
    proof {
        assert(parts@.map_values(|l: Vec<char>| l@).take(0) =~= Seq::<Seq<char>>::empty());
        assert(spec_keep_parts(Seq::<Seq<char>>::empty()) =~= Seq::<Seq<char>>::empty());
        assert(kept@.map_values(|l: Vec<char>| l@) =~= Seq::<Seq<char>>::empty());
    }
    while i < n
        invariant
            i <= n,
            n == parts@.len(),
            dot@ == "."@,
            parts@.map_values(|l: Vec<char>| l@) == spec_split_slash(cs@),
            cs@ == path@,
            kept@.map_values(|l: Vec<char>| l@) == spec_keep_parts(
                parts@.map_values(|l: Vec<char>| l@).take(i as int),
            ),
        decreases n - i,
    {
        let ghost pv = parts@.map_values(|l: Vec<char>| l@);
        proof {
            assert(pv.take(i + 1).drop_last() =~= pv.take(i as int));
            assert(pv.take(i + 1).last() == pv[i as int]);
            assert(pv[i as int] == parts@[i as int]@);
        }
        let piece = &parts[i];
        if piece.len() > 0 && !chars_eq(piece, &dot) {
            kept.push(crate::text::subrange_chars(piece, 0, piece.len()));
            proof {
                assert(kept@.last()@ =~= parts@[i as int]@);
                assert(kept@.map_values(|l: Vec<char>| l@) =~= kept@.drop_last().map_values(
                    |l: Vec<char>| l@,
                ).push(pv[i as int]));
            }
        }
        i = i + 1;
    }
    proof {
        assert(parts@.map_values(|l: Vec<char>| l@).take(n as int) =~= parts@.map_values(
            |l: Vec<char>| l@,
        ));
    }
    let absolute = cs.len() > 0 && cs[0] == '/';
    let mut out: String = if absolute {
        "/".to_owned()
    } else {
        String::new()
    };
    let ghost kv = kept@.map_values(|l: Vec<char>| l@);
    let ghost lead: Seq<char> = if absolute {
        "/"@
    } else {
        ""@
    };
    proof {
        reveal_strlit("/");
        reveal_strlit("");
        assert(out@ =~= lead);
        assert(spec_join_components(kv.take(0)) =~= Seq::<char>::empty());
        assert(out@ =~= lead + spec_join_components(kv.take(0)));
    }
    let kn = kept.len();
    let mut j: usize = 0;
    while j < kn
        invariant
            j <= kn,
            kn == kept@.len(),
            kv == kept@.map_values(|l: Vec<char>| l@),
            out@ == lead + spec_join_components(kv.take(j as int)),
        decreases kn - j,
    {
        proof {
            assert(kv.take(j + 1).drop_last() =~= kv.take(j as int));
            assert(kv.take(j + 1).last() == kv[j as int]);
            assert(kv[j as int] == kept@[j as int]@);
        }
        if j > 0 {
            out.append("/");
        }
        let piece = string_from_chars(&kept[j]);
        out.append(piece.as_str());
        proof {
            if j == 0 {
                assert(kv.take(1) =~= seq![kv[0]]);
                assert(spec_join_components(kv.take(1)) == kv[0]);
            }
        }
        j = j + 1;
    }
    proof {
        assert(kv.take(kn as int) =~= kv);
    }
    if out.unicode_len() == 0 {
        return ".".to_owned();
    }
    out
}

/// A path rendered with the home directory shortened to a tilde.
///
/// `home` is the user's home directory as the caller resolved it.
pub open spec fn spec_display_with_home(p: Seq<char>, home: Option<Seq<char>>) -> Seq<char> {
    match home {
        None => p,
        Some(h) => {
            if p == h {
                "~"@
            } else if crate::text::spec_has_at(p, h + "/"@, 0) {
                "~"@ + p.skip(h.len() as int)
            } else {
                p
            }
        },
    }
}

/// Render a path with the home directory shortened to a tilde.
pub fn display_path_with_home(path: &str, home: Option<&String>) -> (r: String)
    ensures
        r@ == spec_display_with_home(
            path@,
            match home {
                Some(h) => Some(h@),
                None => None,
            },
        ),
{
    let h = match home {
        None => {
            return path.to_owned();
        },
        Some(h) => h,
    };
    let pc = chars_of(path);
    let hc = chars_of(h.as_str());
    if chars_eq(&pc, &hc) {
        return "~".to_owned();
    }
    let mut hslash = h.clone();
    hslash.append("/");
    if crate::text::has_at(&pc, hslash.as_str(), 0) {
        let n = pc.len();
        proof {
            reveal_strlit("/");
            assert(hslash@.len() == h@.len() + 1);
            assert(h@.len() < n);
        }
        let rest = crate::text::subrange_chars(&pc, hc.len(), n);
        let mut out = "~".to_owned();
        let rest_s = string_from_chars(&rest);
        out.append(rest_s.as_str());
        proof {
            assert(rest@ =~= path@.skip(h@.len() as int));
        }
        return out;
    }
    path.to_owned()
}

/// The status code shown at the right of an entry: every status but
/// `Ignored` shows its short code.
pub open spec fn spec_right_label(status: GitFileStatus) -> Option<Seq<char>> {
    match status {
        GitFileStatus::Ignored => None,
        _ => Some(spec_label(status)),
    }
}

/// The status code shown at the right of an entry.
pub fn right_label_for_status(status: GitFileStatus) -> (r: Option<&'static str>)
    ensures
        match r {
            Some(s) => spec_right_label(status) == Some(s@),
            None => spec_right_label(status) is None,
        },
{
    match status {
        GitFileStatus::Ignored => None,
        _ => Some(status.label()),
    }
}

/// The repository status of one entry: its path relative to the repository
/// root, looked up in the status map.
///
/// `abs_path` is the entry's absolute path as the caller resolved it.
pub fn git_status_label_for_node(git: &GitRepoStatus, abs_path: &str) -> (r: Option<GitFileStatus>)
    ensures
        match r {
            Some(s) => exists|i: int|
                0 <= i < git.file_statuses@.len() && crate::git::entries_view(
                    git.file_statuses@,
                )[i] == (spec_repo_relative(abs_path@, git.repo_root@)->0, s),
            None => true,
        },
{
    let rel = match repo_relative(abs_path, git.repo_root.as_str()) {
        None => {
            return None;
        },
        Some(rel) => rel,
    };
    let n = git.file_statuses.len();
    let mut i: usize = 0;
    while i < n
        invariant
            i <= n,
            n == git.file_statuses@.len(),
            spec_repo_relative(abs_path@, git.repo_root@) matches Some(q) && q == rel@,
        decreases n - i,
    {
        if git.file_statuses[i].0.eq(&rel) {
            proof {
                assert(crate::git::entries_view(git.file_statuses@)[i as int] == (
                    rel@,
                    git.file_statuses@[i as int].1,
                ));
            }
            return Some(git.file_statuses[i].1);
        }
        i = i + 1;
    }
    None
}

/// A path made relative to the repository root: what follows the root and
/// one slash; the root itself or an unrelated path has no relative form.
pub open spec fn spec_repo_relative(abs: Seq<char>, root: Seq<char>) -> Option<Seq<char>> {
    if crate::text::spec_has_at(abs, root + "/"@, 0) {
        Some(abs.skip(root.len() as int + 1))
    } else {
        None
    }
}

/// A path made relative to the repository root.
fn repo_relative(abs: &str, root: &str) -> (r: Option<String>)
    ensures
        match r {
            Some(s) => spec_repo_relative(abs@, root@) == Some(s@),
            None => spec_repo_relative(abs@, root@) is None,
        },
{
    let ac = chars_of(abs);
    let mut prefix = root.to_owned();
    prefix.append("/");
    proof {
        reveal_strlit("/");
    }
    if crate::text::has_at(&ac, prefix.as_str(), 0) {
        let n = ac.len();
        proof {
            assert(prefix@.len() == root@.len() + 1);
            assert(root@.len() + 1 <= n);
        }
        let rest = crate::text::subrange_chars(&ac, root.unicode_len() + 1, n);
        proof {
            assert(rest@ =~= abs@.skip(root@.len() as int + 1));
        }
        Some(string_from_chars(&rest))
    } else {
        None
    }
}

/// The decimal writing of `n`, left-padded with zeros to at least `width`
/// characters.
pub open spec fn spec_zero_padded(n: int, width: int) -> Seq<char> {
    let d = spec_decimal(n);
    if d.len() >= width {
        d
    } else {
        Seq::new((width - d.len()) as nat, |i: int| '0') + d
    }
}

/// The decimal digits of `n`, left-padded with zeros to at least `width`
/// characters.
fn zero_padded(n: u64, width: usize) -> (r: Vec<char>)
    ensures
        r@ == spec_zero_padded(n as int, width as int),
{
    let mut digits = crate::text::decimal_chars(n);
    if digits.len() >= width {
        return digits;
    }
    let pad = width - digits.len();
    let mut out: Vec<char> = Vec::new();
    let mut i: usize = 0;
    while i < pad
        invariant
            i <= pad,
            out@ == Seq::new(i as nat, |j: int| '0'),
        decreases pad - i,
    {
        out.push('0');
        proof {
            assert(out@ =~= Seq::new((i + 1) as nat, |j: int| '0'));
        }
        i = i + 1;
    }
    out.append(&mut digits);
    out
}

/// The three-letter name of a calendar month.
pub open spec fn spec_month_name(month: int) -> Seq<char> {
    if month == 1 {
        "Jan"@
    } else if month == 2 {
        "Feb"@
    } else if month == 3 {
        "Mar"@
    } else if month == 4 {
        "Apr"@
    } else if month == 5 {
        "May"@
    } else if month == 6 {
        "Jun"@
    } else if month == 7 {
        "Jul"@
    } else if month == 8 {
        "Aug"@
    } else if month == 9 {
        "Sep"@
    } else if month == 10 {
        "Oct"@
    } else if month == 11 {
        "Nov"@
    } else {
        "Dec"@
    }
}

/// The three-letter name of a calendar month.
pub fn month_name(month: u8) -> (r: &'static str)
    requires
        1 <= month <= 12,
    ensures
        r@ == spec_month_name(month as int),
{
    match month {
        1 => "Jan",
        2 => "Feb",
        3 => "Mar",
        4 => "Apr",
        5 => "May",
        6 => "Jun",
        7 => "Jul",
        8 => "Aug",
        9 => "Sep",
        10 => "Oct",
        11 => "Nov",
        _ => "Dec",
    }
}

/// How a modification time reads in the metadata line: a zero-padded clock,
/// then day, month name and four-digit year.
pub open spec fn spec_civil_timestamp(hour: int, minute: int, day: int, month: int, year: int) -> Seq<
    char,
> {
    spec_zero_padded(hour, 2) + ":"@ + spec_zero_padded(minute, 2) + " "@ + spec_zero_padded(day, 2)
        + "-"@ + spec_month_name(month) + "-"@ + spec_zero_padded(year, 4)
}

/// Format a modification time from its civil clock fields; the caller reads
/// the fields off the timestamp.
pub fn format_civil_timestamp(hour: u8, minute: u8, day: u8, month: u8, year: u16) -> (r: String)
    requires
        1 <= month <= 12,
    ensures
        r@ == spec_civil_timestamp(hour as int, minute as int, day as int, month as int, year as int),
{
    let hh = zero_padded(hour as u64, 2);
    let mut out = string_from_chars(&hh);
    out.append(":");
    let mm = zero_padded(minute as u64, 2);
    let mm_s = string_from_chars(&mm);
    out.append(mm_s.as_str());
    out.append(" ");
    let dd = zero_padded(day as u64, 2);
    let dd_s = string_from_chars(&dd);
    out.append(dd_s.as_str());
    out.append("-");
    out.append(month_name(month));
    out.append("-");
    let yy = zero_padded(year as u64, 4);
    let yy_s = string_from_chars(&yy);
    out.append(yy_s.as_str());
    out
}

/// The nine-character symbolic form of a permission mode's low bits.
pub open spec fn spec_symbolic_permissions(mode: u32) -> Seq<char> {
    seq![
        if mode & 0x100u32 != 0 {
            'r'
        } else {
            '-'
        },
        if mode & 0x80u32 != 0 {
            'w'
        } else {
            '-'
        },
        if mode & 0x40u32 != 0 {
            'x'
        } else {
            '-'
        },
        if mode & 0x20u32 != 0 {
            'r'
        } else {
            '-'
        },
        if mode & 0x10u32 != 0 {
            'w'
        } else {
            '-'
        },
        if mode & 0x8u32 != 0 {
            'x'
        } else {
            '-'
        },
        if mode & 0x4u32 != 0 {
            'r'
        } else {
            '-'
        },
        if mode & 0x2u32 != 0 {
            'w'
        } else {
            '-'
        },
        if mode & 0x1u32 != 0 {
            'x'
        } else {
            '-'
        },
    ]
}

/// The nine-character symbolic form of a permission mode's low bits.
pub fn symbolic_permissions(mode: u32) -> (r: String)
    ensures
        r@ == spec_symbolic_permissions(mode),
{
    let mut cs: Vec<char> = Vec::new();
    cs.push(if mode & 0x100u32 != 0 { 'r' } else { '-' });
    cs.push(if mode & 0x80u32 != 0 { 'w' } else { '-' });
    cs.push(if mode & 0x40u32 != 0 { 'x' } else { '-' });
    cs.push(if mode & 0x20u32 != 0 { 'r' } else { '-' });
    cs.push(if mode & 0x10u32 != 0 { 'w' } else { '-' });
    cs.push(if mode & 0x8u32 != 0 { 'x' } else { '-' });
    cs.push(if mode & 0x4u32 != 0 { 'r' } else { '-' });
    cs.push(if mode & 0x2u32 != 0 { 'w' } else { '-' });
    cs.push(if mode & 0x1u32 != 0 { 'x' } else { '-' });
    proof {
        assert(cs@ =~= spec_symbolic_permissions(mode));
    }
    string_from_chars(&cs)
}

} // verus!
