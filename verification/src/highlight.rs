//! Syntax highlighting: the extension-to-grammar table, the precompiled
//! engine configurations, and the conversion of the engine's event stream
//! into styled preview lines.
use vstd::prelude::*;

use crate::listing::spec_lower;
use crate::listing::spec_seq_cmp;
use crate::preview_doc::line_view;
use crate::preview_doc::lines_view;
use crate::preview_doc::ContentType;
use crate::preview_doc::PreviewFallbackReason;
use crate::preview_doc::RgbColor;
use crate::text::find_from;
use crate::preview_doc::SegmentStyle;
use crate::preview_doc::StyledPreviewLine;
use crate::preview_doc::StyledPreviewSegment;
use crate::text::chars_of;
use crate::text::lemma_find_last_bounds;
use crate::text::spec_find_last;
use crate::text::spec_has_at;
use crate::text::spec_skip_clamped;
use crate::text::subrange_chars;
use vstd::string::StringSliceAdditionalSpecFns;
use tree_sitter_highlight::HighlightConfiguration;
use tree_sitter_highlight::HighlightEvent;
use tree_sitter_highlight::Highlighter;

verus! {

#[verifier::external_type_specification]
#[verifier::external_body]
pub struct ExHighlightConfiguration(HighlightConfiguration);

/// The grammars the preview can highlight with, keyed by file extension.
#[derive(Debug, Clone, Copy, PartialEq, Eq, Structural)]
pub enum HighlightLanguage {
    Bash,
    C,
    Cpp,
    Css,
    Go,
    Html,
    Java,
    JavaScript,
    Jsx,
    Json,
    Markdown,
    Python,
    Rust,
    Toml,
    TypeScript,
    Tsx,
}

/// The file-name part of a path: what follows its last slash.
pub open spec fn spec_file_name(p: Seq<char>) -> Seq<char> {
    match spec_find_last(p, "/"@) {
        None => p,
        Some(i) => spec_skip_clamped(p, i + 1),
    }
}

/// The extension of a path: what follows the last dot of its file name,
/// unless the name has no dot or only its leading one.
pub open spec fn spec_extension(p: Seq<char>) -> Option<Seq<char>> {
    let name = spec_file_name(p);
    match spec_find_last(name, "."@) {
        None => None,
        Some(i) => if i == 0 {
            None
        } else {
            Some(spec_skip_clamped(name, i + 1))
        },
    }
}

/// Whether two character sequences are equal up to ASCII case.
pub open spec fn spec_eq_ci(a: Seq<char>, b: Seq<char>) -> bool {
    spec_lower(a) == spec_lower(b)
}

/// Whether two names are equal up to ASCII case.
pub fn eq_ignore_case(a: &str, b: &str) -> (r: bool)
    ensures
        r == spec_eq_ci(a@, b@),
{
    let o = crate::listing::cmp_names(a, b, true);
    proof {
        crate::listing::lemma_seq_cmp_eq_iff(spec_lower(a@), spec_lower(b@));
    }
    matches!(o, core::cmp::Ordering::Equal)
}

/// The grammar a path's extension selects, up to ASCII case.
pub open spec fn spec_highlight_language_of(p: Seq<char>) -> Option<HighlightLanguage> {
    match spec_extension(p) {
        None => None,
        Some(e) => spec_language_for_ext(e),
    }
}

/// The grammar one extension selects.
pub open spec fn spec_language_for_ext(e: Seq<char>) -> Option<HighlightLanguage> {
    if spec_eq_ci(e, "bash"@) || spec_eq_ci(e, "sh"@) || spec_eq_ci(e, "zsh"@) || spec_eq_ci(
        e,
        "ksh"@,
    ) {
        Some(HighlightLanguage::Bash)
    } else if spec_eq_ci(e, "c"@) || spec_eq_ci(e, "h"@) {
        Some(HighlightLanguage::C)
    } else if spec_eq_ci(e, "cc"@) || spec_eq_ci(e, "cp"@) || spec_eq_ci(e, "cpp"@) || spec_eq_ci(
        e,
        "cxx"@,
    ) || spec_eq_ci(e, "c++"@) || spec_eq_ci(e, "hpp"@) || spec_eq_ci(e, "hh"@) || spec_eq_ci(
        e,
        "hxx"@,
    ) {
        Some(HighlightLanguage::Cpp)
    } else if spec_eq_ci(e, "css"@) {
        Some(HighlightLanguage::Css)
    } else if spec_eq_ci(e, "go"@) {
        Some(HighlightLanguage::Go)
    } else if spec_eq_ci(e, "html"@) || spec_eq_ci(e, "htm"@) {
        Some(HighlightLanguage::Html)
    } else if spec_eq_ci(e, "java"@) {
        Some(HighlightLanguage::Java)
    } else if spec_eq_ci(e, "js"@) || spec_eq_ci(e, "mjs"@) || spec_eq_ci(e, "cjs"@) {
        Some(HighlightLanguage::JavaScript)
    } else if spec_eq_ci(e, "jsx"@) {
        Some(HighlightLanguage::Jsx)
    } else if spec_eq_ci(e, "json"@) {
        Some(HighlightLanguage::Json)
    } else if spec_eq_ci(e, "md"@) || spec_eq_ci(e, "markdown"@) {
        Some(HighlightLanguage::Markdown)
    } else if spec_eq_ci(e, "py"@) {
        Some(HighlightLanguage::Python)
    } else if spec_eq_ci(e, "rs"@) {
        Some(HighlightLanguage::Rust)
    } else if spec_eq_ci(e, "toml"@) {
        Some(HighlightLanguage::Toml)
    } else if spec_eq_ci(e, "ts"@) {
        Some(HighlightLanguage::TypeScript)
    } else if spec_eq_ci(e, "tsx"@) {
        Some(HighlightLanguage::Tsx)
    } else {
        None
    }
}

/// The extension of `path`, as its characters.
pub fn extension_chars(path: &str) -> (r: Option<Vec<char>>)
    ensures
        match r {
            Some(e) => spec_extension(path@) == Some(e@),
            None => spec_extension(path@) is None,
        },
{
    let cs = chars_of(path);
    proof {
        reveal_strlit("/");
        reveal_strlit(".");
    }
    let name = match crate::text::find_last(&cs, "/", 1) {
        None => cs,
        Some(i) => {
            proof {
                lemma_find_last_bounds(cs@, "/"@, cs@.len() - 1, i as int);
            }
            let n = cs.len();
            let name = subrange_chars(&cs, i + 1, n);
            proof {
                assert(name@ =~= spec_skip_clamped(cs@, i + 1));
            }
            name
        },
    };
    match crate::text::find_last(&name, ".", 1) {
        None => None,
        Some(i) => {
            if i == 0 {
                None
            } else {
                proof {
                    lemma_find_last_bounds(name@, "."@, name@.len() - 1, i as int);
                }
                let n = name.len();
                let ext = subrange_chars(&name, i + 1, n);
                proof {
                    assert(ext@ =~= spec_skip_clamped(name@, i + 1));
                }
                Some(ext)
            }
        },
    }
}

impl HighlightLanguage {
    /// The grammar that previews of `path` highlight with, selected by the
    /// path's extension, case-insensitively.
    pub fn for_path(path: &str) -> (r: Option<HighlightLanguage>)
        ensures
            r == spec_highlight_language_of(path@),
    {
        let ext = match extension_chars(path) {
            None => {
                return None;
            },
            Some(e) => e,
        };
        let e = crate::text::string_from_chars(&ext);
        let s = e.as_str();
        if eq_ignore_case(s, "bash") || eq_ignore_case(s, "sh") || eq_ignore_case(s, "zsh")
            || eq_ignore_case(s, "ksh") {
            Some(HighlightLanguage::Bash)
        } else if eq_ignore_case(s, "c") || eq_ignore_case(s, "h") {
            Some(HighlightLanguage::C)
        } else if eq_ignore_case(s, "cc") || eq_ignore_case(s, "cp") || eq_ignore_case(s, "cpp")
            || eq_ignore_case(s, "cxx") || eq_ignore_case(s, "c++") || eq_ignore_case(s, "hpp")
            || eq_ignore_case(s, "hh") || eq_ignore_case(s, "hxx") {
            Some(HighlightLanguage::Cpp)
        } else if eq_ignore_case(s, "css") {
            Some(HighlightLanguage::Css)
        } else if eq_ignore_case(s, "go") {
            Some(HighlightLanguage::Go)
        } else if eq_ignore_case(s, "html") || eq_ignore_case(s, "htm") {
            Some(HighlightLanguage::Html)
        } else if eq_ignore_case(s, "java") {
            Some(HighlightLanguage::Java)
        } else if eq_ignore_case(s, "js") || eq_ignore_case(s, "mjs") || eq_ignore_case(s, "cjs") {
            Some(HighlightLanguage::JavaScript)
        } else if eq_ignore_case(s, "jsx") {
            Some(HighlightLanguage::Jsx)
        } else if eq_ignore_case(s, "json") {
            Some(HighlightLanguage::Json)
        } else if eq_ignore_case(s, "md") || eq_ignore_case(s, "markdown") {
            Some(HighlightLanguage::Markdown)
        } else if eq_ignore_case(s, "py") {
            Some(HighlightLanguage::Python)
        } else if eq_ignore_case(s, "rs") {
            Some(HighlightLanguage::Rust)
        } else if eq_ignore_case(s, "toml") {
            Some(HighlightLanguage::Toml)
        } else if eq_ignore_case(s, "ts") {
            Some(HighlightLanguage::TypeScript)
        } else if eq_ignore_case(s, "tsx") {
            Some(HighlightLanguage::Tsx)
        } else {
            None
        }
    }

    /// The display name of the grammar's language.
    pub fn language_id(self) -> (r: &'static str)
        ensures
            r@ == spec_language_id(self),
    {
        proof {
            reveal_strlit("Shell");
            reveal_strlit("C");
            reveal_strlit("C++");
            reveal_strlit("CSS");
            reveal_strlit("Go");
            reveal_strlit("HTML");
            reveal_strlit("Java");
            reveal_strlit("JavaScript");
            reveal_strlit("JSON");
            reveal_strlit("Markdown");
            reveal_strlit("Python");
            reveal_strlit("Rust");
            reveal_strlit("TOML");
            reveal_strlit("TypeScript");
        }
        match self {
            HighlightLanguage::Bash => "Shell",
            HighlightLanguage::C => "C",
            HighlightLanguage::Cpp => "C++",
            HighlightLanguage::Css => "CSS",
            HighlightLanguage::Go => "Go",
            HighlightLanguage::Html => "HTML",
            HighlightLanguage::Java => "Java",
            HighlightLanguage::JavaScript => "JavaScript",
            HighlightLanguage::Jsx => "JavaScript",
            HighlightLanguage::Json => "JSON",
            HighlightLanguage::Markdown => "Markdown",
            HighlightLanguage::Python => "Python",
            HighlightLanguage::Rust => "Rust",
            HighlightLanguage::Toml => "TOML",
            HighlightLanguage::TypeScript => "TypeScript",
            HighlightLanguage::Tsx => "TypeScript",
        }
    }
}

/// The display name of each grammar's language.
pub open spec fn spec_language_id(l: HighlightLanguage) -> Seq<char> {
    match l {
        HighlightLanguage::Bash => "Shell"@,
        HighlightLanguage::C => "C"@,
        HighlightLanguage::Cpp => "C++"@,
        HighlightLanguage::Css => "CSS"@,
        HighlightLanguage::Go => "Go"@,
        HighlightLanguage::Html => "HTML"@,
        HighlightLanguage::Java => "Java"@,
        HighlightLanguage::JavaScript => "JavaScript"@,
        HighlightLanguage::Jsx => "JavaScript"@,
        HighlightLanguage::Json => "JSON"@,
        HighlightLanguage::Markdown => "Markdown"@,
        HighlightLanguage::Python => "Python"@,
        HighlightLanguage::Rust => "Rust"@,
        HighlightLanguage::Toml => "TOML"@,
        HighlightLanguage::TypeScript => "TypeScript"@,
        HighlightLanguage::Tsx => "TypeScript"@,
    }
}

/// The display language of a path for the metadata line, a wider table than
/// the grammars: it also names languages the preview shows as plain text.
pub open spec fn spec_display_language(e: Seq<char>) -> Option<Seq<char>> {
    if spec_eq_ci(e, "yaml"@) || spec_eq_ci(e, "yml"@) {
        Some("YAML"@)
    } else if spec_eq_ci(e, "xml"@) {
        Some("XML"@)
    } else {
        match spec_language_for_ext(e) {
            Some(l) => Some(spec_language_id(l)),
            None => None,
        }
    }
}

/// The display name of the language a path's extension suggests, or none
/// for an unknown extension.
pub fn language_for_path(path: &str) -> (r: Option<String>)
    ensures
        match (r, spec_extension(path@)) {
            (Some(s), Some(e)) => spec_display_language(e) == Some(s@),
            (None, Some(e)) => spec_display_language(e) is None,
            (None, None) => true,
            (Some(_), None) => false,
        },
{
    let ext = match extension_chars(path) {
        None => {
            return None;
        },
        Some(e) => e,
    };
    let e = crate::text::string_from_chars(&ext);
    let s = e.as_str();
    if eq_ignore_case(s, "yaml") || eq_ignore_case(s, "yml") {
        return Some("YAML".to_owned());
    }
    if eq_ignore_case(s, "xml") {
        return Some("XML".to_owned());
    }
    match HighlightLanguage::for_path(path) {
        Some(l) => Some(l.language_id().to_owned()),
        None => None,
    }
}

/// One step of the engine's event stream over a source text: a highlight
/// capture opens, the innermost capture closes, or a byte range of the
/// source is emitted.
#[derive(Debug, Clone, Copy, PartialEq, Eq, Structural)]
pub enum HighlightStep {
    Start(usize),
    End,
    Source(usize, usize),
}

/// Relies on `tree_sitter_highlight::HighlightConfiguration::new` with the
/// shell grammar and its highlight query.
#[verifier::external_body]
fn new_bash_config() -> (r: Option<HighlightConfiguration>)
{
    HighlightConfiguration::new(
        tree_sitter_bash::LANGUAGE.into(),
        "bash",
        tree_sitter_bash::HIGHLIGHT_QUERY,
        "",
        "",
    ).ok()
}

/// Relies on `tree_sitter_highlight::HighlightConfiguration::new` with the
/// C grammar and its highlight query.
#[verifier::external_body]
fn new_c_config() -> (r: Option<HighlightConfiguration>)
{
    HighlightConfiguration::new(
        tree_sitter_c::LANGUAGE.into(),
        "c",
        tree_sitter_c::HIGHLIGHT_QUERY,
        "",
        "",
    ).ok()
}

/// Relies on `tree_sitter_highlight::HighlightConfiguration::new` with the
/// C++ grammar and its highlight query.
#[verifier::external_body]
fn new_cpp_config() -> (r: Option<HighlightConfiguration>)
{
    HighlightConfiguration::new(
        tree_sitter_cpp::LANGUAGE.into(),
        "cpp",
        tree_sitter_cpp::HIGHLIGHT_QUERY,
        "",
        "",
    ).ok()
}

/// Relies on `tree_sitter_highlight::HighlightConfiguration::new` with the
/// CSS grammar and its highlight query.
#[verifier::external_body]
fn new_css_config() -> (r: Option<HighlightConfiguration>)
{
    HighlightConfiguration::new(
        tree_sitter_css::LANGUAGE.into(),
        "css",
        tree_sitter_css::HIGHLIGHTS_QUERY,
        "",
        "",
    ).ok()
}

/// Relies on `tree_sitter_highlight::HighlightConfiguration::new` with the
/// Go grammar and its highlight query.
#[verifier::external_body]
fn new_go_config() -> (r: Option<HighlightConfiguration>)
{
    HighlightConfiguration::new(
        tree_sitter_go::LANGUAGE.into(),
        "go",
        tree_sitter_go::HIGHLIGHTS_QUERY,
        "",
        "",
    ).ok()
}

/// Relies on `tree_sitter_highlight::HighlightConfiguration::new` with the
/// HTML grammar, its highlight query and its injections query.
#[verifier::external_body]
fn new_html_config() -> (r: Option<HighlightConfiguration>)
{
    HighlightConfiguration::new(
        tree_sitter_html::LANGUAGE.into(),
        "html",
        tree_sitter_html::HIGHLIGHTS_QUERY,
        tree_sitter_html::INJECTIONS_QUERY,
        "",
    ).ok()
}

/// Relies on `tree_sitter_highlight::HighlightConfiguration::new` with the
/// Java grammar and its highlight query.
#[verifier::external_body]
fn new_java_config() -> (r: Option<HighlightConfiguration>)
{
    HighlightConfiguration::new(
        tree_sitter_java::LANGUAGE.into(),
        "java",
        tree_sitter_java::HIGHLIGHTS_QUERY,
        "",
        "",
    ).ok()
}

/// Relies on `tree_sitter_highlight::HighlightConfiguration::new` with the
/// JavaScript grammar, its highlight, injections and locals queries.
#[verifier::external_body]
fn new_js_config() -> (r: Option<HighlightConfiguration>)
{
    HighlightConfiguration::new(
        tree_sitter_javascript::LANGUAGE.into(),
        "javascript",
        tree_sitter_javascript::HIGHLIGHT_QUERY,
        tree_sitter_javascript::INJECTIONS_QUERY,
        tree_sitter_javascript::LOCALS_QUERY,
    ).ok()
}

/// Relies on `tree_sitter_highlight::HighlightConfiguration::new` with the
/// JavaScript grammar and its queries, the JSX highlights appended.
#[verifier::external_body]
fn new_jsx_config() -> (r: Option<HighlightConfiguration>)
{
    let highlights = format!(
        "{}\n{}",
        tree_sitter_javascript::HIGHLIGHT_QUERY,
        tree_sitter_javascript::JSX_HIGHLIGHT_QUERY,
    );
    HighlightConfiguration::new(
        tree_sitter_javascript::LANGUAGE.into(),
        "jsx",
        &highlights,
        tree_sitter_javascript::INJECTIONS_QUERY,
        tree_sitter_javascript::LOCALS_QUERY,
    ).ok()
}

/// Relies on `tree_sitter_highlight::HighlightConfiguration::new` with the
/// JSON grammar and its highlight query.
#[verifier::external_body]
fn new_json_config() -> (r: Option<HighlightConfiguration>)
{
    HighlightConfiguration::new(
        tree_sitter_json::LANGUAGE.into(),
        "json",
        tree_sitter_json::HIGHLIGHTS_QUERY,
        "",
        "",
    ).ok()
}

/// Relies on `tree_sitter_highlight::HighlightConfiguration::new` with the
/// Markdown block grammar, its highlight query and its injections query.
#[verifier::external_body]
fn new_markdown_config() -> (r: Option<HighlightConfiguration>)
{
    HighlightConfiguration::new(
        tree_sitter_md::LANGUAGE.into(),
        "markdown",
        tree_sitter_md::HIGHLIGHT_QUERY_BLOCK,
        tree_sitter_md::INJECTION_QUERY_BLOCK,
        "",
    ).ok()
}

/// Relies on `tree_sitter_highlight::HighlightConfiguration::new` with the
/// Markdown inline grammar, its highlight query and its injections query.
#[verifier::external_body]
fn new_markdown_inline_config() -> (r: Option<HighlightConfiguration>)
{
    HighlightConfiguration::new(
        tree_sitter_md::INLINE_LANGUAGE.into(),
        "markdown_inline",
        tree_sitter_md::HIGHLIGHT_QUERY_INLINE,
        tree_sitter_md::INJECTION_QUERY_INLINE,
        "",
    ).ok()
}

/// Relies on `tree_sitter_highlight::HighlightConfiguration::new` with the
/// Python grammar and its highlight query.
#[verifier::external_body]
fn new_py_config() -> (r: Option<HighlightConfiguration>)
{
    HighlightConfiguration::new(
        tree_sitter_python::LANGUAGE.into(),
        "python",
        tree_sitter_python::HIGHLIGHTS_QUERY,
        "",
        "",
    ).ok()
}

/// Relies on `tree_sitter_highlight::HighlightConfiguration::new` with the
/// Rust grammar, its highlight query and its injections query.
#[verifier::external_body]
fn new_rs_config() -> (r: Option<HighlightConfiguration>)
{
    HighlightConfiguration::new(
        tree_sitter_rust::LANGUAGE.into(),
        "rust",
        tree_sitter_rust::HIGHLIGHTS_QUERY,
        tree_sitter_rust::INJECTIONS_QUERY,
        "",
    ).ok()
}

/// Relies on `tree_sitter_highlight::HighlightConfiguration::new` with the
/// TypeScript grammar, its highlight query and its locals query.
#[verifier::external_body]
fn new_ts_config() -> (r: Option<HighlightConfiguration>)
{
    HighlightConfiguration::new(
        tree_sitter_typescript::LANGUAGE_TYPESCRIPT.into(),
        "typescript",
        tree_sitter_typescript::HIGHLIGHTS_QUERY,
        "",
        tree_sitter_typescript::LOCALS_QUERY,
    ).ok()
}

/// Relies on `tree_sitter_highlight::HighlightConfiguration::new` with the
/// TSX grammar, its highlight query and its locals query.
#[verifier::external_body]
fn new_tsx_config() -> (r: Option<HighlightConfiguration>)
{
    HighlightConfiguration::new(
        tree_sitter_typescript::LANGUAGE_TSX.into(),
        "tsx",
        tree_sitter_typescript::HIGHLIGHTS_QUERY,
        "",
        tree_sitter_typescript::LOCALS_QUERY,
    ).ok()
}

/// Relies on `tree_sitter_highlight::HighlightConfiguration::configure`:
/// tells the configuration which capture names events may carry.
#[verifier::external_body]
fn configure_config(config: &mut HighlightConfiguration, names: &Vec<String>)
{
    let name_slices: Vec<&str> = names.iter().map(|s| s.as_str()).collect();
    config.configure(&name_slices);
}

/// Relies on `tree_sitter_highlight::Highlighter::highlight`: runs the
/// engine over the source bytes and hands every event back as a plain step;
/// a failure of the engine, at start or mid-stream, yields `None`.
#[verifier::external_body]
fn run_highlighter(
    ctx: &HighlightContext,
    config: &HighlightConfiguration,
    source: &Vec<u8>,
) -> (r: Option<Vec<HighlightStep>>)
{
    let mut highlighter = Highlighter::new();
    let events = highlighter
        .highlight(config, source.as_slice(), None, None, |name| ctx.injection_config(name))
        .ok()?;
    let mut out = Vec::new();
    for event in events {
        out.push(match event.ok()? {
            HighlightEvent::Source { start, end } => HighlightStep::Source(start, end),
            HighlightEvent::HighlightStart(h) => HighlightStep::Start(h.0),
            HighlightEvent::HighlightEnd => HighlightStep::End,
        });
    }
    Some(out)
}

/// The precompiled engine configurations, one per supported grammar, built
/// once at startup and immutable for the session.
///
/// The TOML grammar is not built: its crate predates the engine interface in
/// use here, so TOML files fall back to a plain-text preview.
pub struct HighlightContext {
    pub bash_config: Option<HighlightConfiguration>,
    pub c_config: Option<HighlightConfiguration>,
    pub cpp_config: Option<HighlightConfiguration>,
    pub css_config: Option<HighlightConfiguration>,
    pub go_config: Option<HighlightConfiguration>,
    pub html_config: Option<HighlightConfiguration>,
    pub java_config: Option<HighlightConfiguration>,
    pub js_config: Option<HighlightConfiguration>,
    pub jsx_config: Option<HighlightConfiguration>,
    pub json_config: Option<HighlightConfiguration>,
    pub markdown_config: Option<HighlightConfiguration>,
    pub markdown_inline_config: Option<HighlightConfiguration>,
    pub py_config: Option<HighlightConfiguration>,
    pub rs_config: Option<HighlightConfiguration>,
    pub toml_config: Option<HighlightConfiguration>,
    pub ts_config: Option<HighlightConfiguration>,
    pub tsx_config: Option<HighlightConfiguration>,
}

/// Whether the context holds a configuration for the grammar.
pub open spec fn spec_has_config(ctx: HighlightContext, l: HighlightLanguage) -> bool {
    match l {
        HighlightLanguage::Bash => ctx.bash_config is Some,
        HighlightLanguage::C => ctx.c_config is Some,
        HighlightLanguage::Cpp => ctx.cpp_config is Some,
        HighlightLanguage::Css => ctx.css_config is Some,
        HighlightLanguage::Go => ctx.go_config is Some,
        HighlightLanguage::Html => ctx.html_config is Some,
        HighlightLanguage::Java => ctx.java_config is Some,
        HighlightLanguage::JavaScript => ctx.js_config is Some,
        HighlightLanguage::Jsx => ctx.jsx_config is Some,
        HighlightLanguage::Json => ctx.json_config is Some,
        HighlightLanguage::Markdown => ctx.markdown_config is Some,
        HighlightLanguage::Python => ctx.py_config is Some,
        HighlightLanguage::Rust => ctx.rs_config is Some,
        HighlightLanguage::Toml => ctx.toml_config is Some,
        HighlightLanguage::TypeScript => ctx.ts_config is Some,
        HighlightLanguage::Tsx => ctx.tsx_config is Some,
    }
}

/// A grammar selected for a path: the language's display name and its
/// configuration.
pub struct HighlightTarget<'a> {
    pub language_id: &'static str,
    pub config: &'a HighlightConfiguration,
}

impl HighlightContext {
    /// Build every grammar configuration once; a grammar whose build fails
    /// is simply absent and its files fall back to plain text.
    pub fn new() -> (r: Self)
        ensures
            r.toml_config is None,
    {
        let names = highlight_names();
        HighlightContext {
            bash_config: finish_config(new_bash_config(), &names),
            c_config: finish_config(new_c_config(), &names),
            cpp_config: finish_config(new_cpp_config(), &names),
            css_config: finish_config(new_css_config(), &names),
            go_config: finish_config(new_go_config(), &names),
            html_config: finish_config(new_html_config(), &names),
            java_config: finish_config(new_java_config(), &names),
            js_config: finish_config(new_js_config(), &names),
            jsx_config: finish_config(new_jsx_config(), &names),
            json_config: finish_config(new_json_config(), &names),
            markdown_config: finish_config(new_markdown_config(), &names),
            markdown_inline_config: finish_config(new_markdown_inline_config(), &names),
            py_config: finish_config(new_py_config(), &names),
            rs_config: finish_config(new_rs_config(), &names),
            toml_config: None,
            ts_config: finish_config(new_ts_config(), &names),
            tsx_config: finish_config(new_tsx_config(), &names),
        }
    }

    /// The grammar configuration for a path's extension, with its display
    /// name, where one is built.
    pub fn target_for_path<'a>(&'a self, path: &str) -> (r: Option<HighlightTarget<'a>>)
        ensures
            match spec_highlight_language_of(path@) {
                None => r is None,
                Some(l) => match r {
                    Some(t) => spec_has_config(*self, l) && t.language_id@ == spec_language_id(l),
                    None => !spec_has_config(*self, l),
                },
            },
    {
        let language = match HighlightLanguage::for_path(path) {
            None => {
                return None;
            },
            Some(l) => l,
        };
        let config = match language {
            HighlightLanguage::Bash => self.bash_config.as_ref(),
            HighlightLanguage::C => self.c_config.as_ref(),
            HighlightLanguage::Cpp => self.cpp_config.as_ref(),
            HighlightLanguage::Css => self.css_config.as_ref(),
            HighlightLanguage::Go => self.go_config.as_ref(),
            HighlightLanguage::Html => self.html_config.as_ref(),
            HighlightLanguage::Java => self.java_config.as_ref(),
            HighlightLanguage::JavaScript => self.js_config.as_ref(),
            HighlightLanguage::Jsx => self.jsx_config.as_ref(),
            HighlightLanguage::Json => self.json_config.as_ref(),
            HighlightLanguage::Markdown => self.markdown_config.as_ref(),
            HighlightLanguage::Python => self.py_config.as_ref(),
            HighlightLanguage::Rust => self.rs_config.as_ref(),
            HighlightLanguage::Toml => self.toml_config.as_ref(),
            HighlightLanguage::TypeScript => self.ts_config.as_ref(),
            HighlightLanguage::Tsx => self.tsx_config.as_ref(),
        };
        match config {
            None => None,
            Some(config) => Some(
                HighlightTarget { language_id: language.language_id(), config },
            ),
        }
    }

    /// The configuration an injected language name selects, matched up to
    /// ASCII case; the engine asks for these while it runs.
    pub fn injection_config(&self, language_name: &str) -> (r: Option<&HighlightConfiguration>) {
        let s = language_name;
        if eq_ignore_case(s, "markdown_inline") {
            self.markdown_inline_config.as_ref()
        } else if eq_ignore_case(s, "bash") || eq_ignore_case(s, "sh") || eq_ignore_case(
            s,
            "shell",
        ) || eq_ignore_case(s, "zsh") || eq_ignore_case(s, "ksh") {
            self.bash_config.as_ref()
        } else if eq_ignore_case(s, "c") {
            self.c_config.as_ref()
        } else if eq_ignore_case(s, "cc") || eq_ignore_case(s, "cp") || eq_ignore_case(s, "cpp")
            || eq_ignore_case(s, "cxx") || eq_ignore_case(s, "c++") || eq_ignore_case(s, "hpp")
            || eq_ignore_case(s, "hh") || eq_ignore_case(s, "hxx") {
            self.cpp_config.as_ref()
        } else if eq_ignore_case(s, "css") {
            self.css_config.as_ref()
        } else if eq_ignore_case(s, "go") || eq_ignore_case(s, "golang") {
            self.go_config.as_ref()
        } else if eq_ignore_case(s, "html") || eq_ignore_case(s, "htm") {
            self.html_config.as_ref()
        } else if eq_ignore_case(s, "java") {
            self.java_config.as_ref()
        } else if eq_ignore_case(s, "javascript") || eq_ignore_case(s, "js") || eq_ignore_case(
            s,
            "mjs",
        ) || eq_ignore_case(s, "cjs") {
            self.js_config.as_ref()
        } else if eq_ignore_case(s, "jsx") {
            self.jsx_config.as_ref()
        } else if eq_ignore_case(s, "json") {
            self.json_config.as_ref()
        } else if eq_ignore_case(s, "python") || eq_ignore_case(s, "py") {
            self.py_config.as_ref()
        } else if eq_ignore_case(s, "rust") || eq_ignore_case(s, "rs") {
            self.rs_config.as_ref()
        } else if eq_ignore_case(s, "toml") {
            self.toml_config.as_ref()
        } else if eq_ignore_case(s, "typescript") || eq_ignore_case(s, "ts") {
            self.ts_config.as_ref()
        } else if eq_ignore_case(s, "tsx") {
            self.tsx_config.as_ref()
        } else {
            None
        }
    }
}

/// Attach the capture names to a freshly built configuration.
fn finish_config(config: Option<HighlightConfiguration>, names: &Vec<String>) -> (r: Option<
    HighlightConfiguration,
>)
    ensures
        r is Some <==> config is Some,
{
    match config {
        Some(mut c) => {
            configure_config(&mut c, names);
            Some(c)
        },
        None => None,
    }
}

pub const CAPTURE_NAME_COUNT: usize = 34;

/// The capture vocabulary: the name of capture `i`, the fixed list the
/// engine is configured with and events index into.
pub open spec fn spec_capture_name(i: int) -> Seq<char> {
    if i == 0 {
        "attribute"@
    } else if i == 1 {
        "comment"@
    } else if i == 2 {
        "constant"@
    } else if i == 3 {
        "constant.builtin"@
    } else if i == 4 {
        "constructor"@
    } else if i == 5 {
        "embedded"@
    } else if i == 6 {
        "escape"@
    } else if i == 7 {
        "function"@
    } else if i == 8 {
        "function.builtin"@
    } else if i == 9 {
        "function.method"@
    } else if i == 10 {
        "keyword"@
    } else if i == 11 {
        "module"@
    } else if i == 12 {
        "number"@
    } else if i == 13 {
        "operator"@
    } else if i == 14 {
        "property"@
    } else if i == 15 {
        "punctuation"@
    } else if i == 16 {
        "punctuation.bracket"@
    } else if i == 17 {
        "punctuation.delimiter"@
    } else if i == 18 {
        "punctuation.special"@
    } else if i == 19 {
        "string"@
    } else if i == 20 {
        "tag"@
    } else if i == 21 {
        "text"@
    } else if i == 22 {
        "text.emphasis"@
    } else if i == 23 {
        "text.literal"@
    } else if i == 24 {
        "text.reference"@
    } else if i == 25 {
        "text.strong"@
    } else if i == 26 {
        "text.title"@
    } else if i == 27 {
        "text.uri"@
    } else if i == 28 {
        "type"@
    } else if i == 29 {
        "type.builtin"@
    } else if i == 30 {
        "variable"@
    } else if i == 31 {
        "variable.builtin"@
    } else if i == 32 {
        "variable.parameter"@
    } else {
        "none"@
    }
}

/// The name of capture `i` of the vocabulary.
pub fn capture_name(i: usize) -> (r: &'static str)
    requires
        i < CAPTURE_NAME_COUNT,
    ensures
        r@ == spec_capture_name(i as int),
{
    match i {
        0 => "attribute",
        1 => "comment",
        2 => "constant",
        3 => "constant.builtin",
        4 => "constructor",
        5 => "embedded",
        6 => "escape",
        7 => "function",
        8 => "function.builtin",
        9 => "function.method",
        10 => "keyword",
        11 => "module",
        12 => "number",
        13 => "operator",
        14 => "property",
        15 => "punctuation",
        16 => "punctuation.bracket",
        17 => "punctuation.delimiter",
        18 => "punctuation.special",
        19 => "string",
        20 => "tag",
        21 => "text",
        22 => "text.emphasis",
        23 => "text.literal",
        24 => "text.reference",
        25 => "text.strong",
        26 => "text.title",
        27 => "text.uri",
        28 => "type",
        29 => "type.builtin",
        30 => "variable",
        31 => "variable.builtin",
        32 => "variable.parameter",
        _ => "none",
    }
}

/// The capture vocabulary as one list, in index order.
pub fn highlight_names() -> (r: Vec<String>)
    ensures
        r@.len() == CAPTURE_NAME_COUNT,
        forall|i: int| 0 <= i < CAPTURE_NAME_COUNT ==> r@[i]@ == spec_capture_name(i),
{
    let mut r: Vec<String> = Vec::new();
    let mut i: usize = 0;
    while i < CAPTURE_NAME_COUNT
        invariant
            i <= CAPTURE_NAME_COUNT,
            r@.len() == i,
            forall|j: int| 0 <= j < i ==> r@[j]@ == spec_capture_name(j),
        decreases CAPTURE_NAME_COUNT - i,
    {
        r.push(capture_name(i).to_owned());
        i = i + 1;
    }
    r
}

/// A style with only a foreground color.
pub open spec fn spec_fg(red: u8, green: u8, blue: u8) -> SegmentStyle {
    SegmentStyle {
        foreground: Some(RgbColor { red, green, blue }),
        bold: false,
        italic: false,
        underlined: false,
    }
}

/// The style a capture name selects, by its prefix.
pub open spec fn spec_style_for_capture(name: Seq<char>) -> SegmentStyle {
    if spec_has_at(name, "comment"@, 0) {
        SegmentStyle { italic: true, ..spec_fg(120, 150, 120) }
    } else if spec_has_at(name, "keyword"@, 0) {
        SegmentStyle { bold: true, ..spec_fg(220, 150, 80) }
    } else if spec_has_at(name, "string"@, 0) || spec_has_at(name, "escape"@, 0) {
        spec_fg(140, 200, 130)
    } else if spec_has_at(name, "number"@, 0) || spec_has_at(name, "constant"@, 0) {
        spec_fg(120, 190, 210)
    } else if spec_has_at(name, "type"@, 0) || spec_has_at(name, "tag"@, 0) || spec_has_at(
        name,
        "attribute"@,
        0,
    ) {
        spec_fg(120, 170, 230)
    } else if spec_has_at(name, "function"@, 0) || spec_has_at(name, "constructor"@, 0) {
        spec_fg(220, 200, 120)
    } else if spec_has_at(name, "variable.parameter"@, 0) || spec_has_at(name, "property"@, 0) {
        spec_fg(210, 170, 230)
    } else if spec_has_at(name, "text.title"@, 0) {
        SegmentStyle { bold: true, ..spec_fg(110, 170, 240) }
    } else if spec_has_at(name, "text.literal"@, 0) {
        spec_fg(140, 200, 130)
    } else if spec_has_at(name, "text.emphasis"@, 0) {
        SegmentStyle { italic: true, ..SegmentStyle::spec_plain() }
    } else if spec_has_at(name, "text.strong"@, 0) {
        SegmentStyle { bold: true, ..SegmentStyle::spec_plain() }
    } else if spec_has_at(name, "text.reference"@, 0) || spec_has_at(name, "text.uri"@, 0) {
        SegmentStyle { underlined: true, ..spec_fg(130, 180, 230) }
    } else {
        SegmentStyle::spec_plain()
    }
}

/// The style a capture name selects, by its prefix.
pub fn style_for_capture(name: &str) -> (r: SegmentStyle)
    ensures
        r == spec_style_for_capture(name@),
{
    let cs = chars_of(name);
    if crate::text::has_at(&cs, "comment", 0) {
        SegmentStyle { italic: true, ..fg(120, 150, 120) }
    } else if crate::text::has_at(&cs, "keyword", 0) {
        SegmentStyle { bold: true, ..fg(220, 150, 80) }
    } else if crate::text::has_at(&cs, "string", 0) || crate::text::has_at(&cs, "escape", 0) {
        fg(140, 200, 130)
    } else if crate::text::has_at(&cs, "number", 0) || crate::text::has_at(&cs, "constant", 0) {
        fg(120, 190, 210)
    } else if crate::text::has_at(&cs, "type", 0) || crate::text::has_at(&cs, "tag", 0)
        || crate::text::has_at(&cs, "attribute", 0) {
        fg(120, 170, 230)
    } else if crate::text::has_at(&cs, "function", 0) || crate::text::has_at(
        &cs,
        "constructor",
        0,
    ) {
        fg(220, 200, 120)
    } else if crate::text::has_at(&cs, "variable.parameter", 0) || crate::text::has_at(
        &cs,
        "property",
        0,
    ) {
        fg(210, 170, 230)
    } else if crate::text::has_at(&cs, "text.title", 0) {
        SegmentStyle { bold: true, ..fg(110, 170, 240) }
    } else if crate::text::has_at(&cs, "text.literal", 0) {
        fg(140, 200, 130)
    } else if crate::text::has_at(&cs, "text.emphasis", 0) {
        SegmentStyle { italic: true, ..SegmentStyle::plain() }
    } else if crate::text::has_at(&cs, "text.strong", 0) {
        SegmentStyle { bold: true, ..SegmentStyle::plain() }
    } else if crate::text::has_at(&cs, "text.reference", 0) || crate::text::has_at(
        &cs,
        "text.uri",
        0,
    ) {
        SegmentStyle { underlined: true, ..fg(130, 180, 230) }
    } else {
        SegmentStyle::plain()
    }
}

/// A style with only a foreground color.
fn fg(red: u8, green: u8, blue: u8) -> (r: SegmentStyle)
    ensures
        r == spec_fg(red, green, blue),
{
    SegmentStyle {
        foreground: Some(RgbColor { red, green, blue }),
        bold: false,
        italic: false,
        underlined: false,
    }
}

/// The style of the innermost active capture, or no style while none is
/// active or the index falls outside the vocabulary.
pub open spec fn spec_current_style(active: Seq<usize>) -> SegmentStyle {
    if active.len() == 0 {
        SegmentStyle::spec_plain()
    } else if active.last() < CAPTURE_NAME_COUNT {
        spec_style_for_capture(spec_capture_name(active.last() as int))
    } else {
        SegmentStyle::spec_plain()
    }
}

/// The style of the innermost active capture.
pub fn current_style(active: &Vec<usize>) -> (r: SegmentStyle)
    ensures
        r == spec_current_style(active@),
{
    if active.len() == 0 {
        return SegmentStyle::plain();
    }
    let idx = active[active.len() - 1];
    if idx < CAPTURE_NAME_COUNT {
        style_for_capture(capture_name(idx))
    } else {
        SegmentStyle::plain()
    }
}

/// `lines` with `seg` appended to its last line; an empty `seg` changes
/// nothing. `lines` is expected non-empty.
pub open spec fn spec_append_seg(
    lines: Seq<Seq<(Seq<char>, SegmentStyle)>>,
    seg: Seq<char>,
    st: SegmentStyle,
) -> Seq<Seq<(Seq<char>, SegmentStyle)>> {
    if seg.len() == 0 || lines.len() == 0 {
        lines
    } else {
        lines.update(lines.len() - 1, lines.last().push((seg, st)))
    }
}

/// `text` distributed over `lines`: pieces split at newlines are appended
/// to the last line, each newline opens a fresh line, and empty pieces are
/// dropped; an empty `lines` first gains one empty line.
pub open spec fn spec_push_text(
    lines: Seq<Seq<(Seq<char>, SegmentStyle)>>,
    text: Seq<char>,
    st: SegmentStyle,
) -> Seq<Seq<(Seq<char>, SegmentStyle)>>
    decreases text.len(),
{
    let base = if lines.len() == 0 {
        seq![Seq::<(Seq<char>, SegmentStyle)>::empty()]
    } else {
        lines
    };
    if text.len() == 0 {
        base
    } else {
        let cut = crate::git::spec_line_cut(text);
        if cut >= text.len() {
            spec_append_seg(base, text, st)
        } else {
            let opened = spec_append_seg(base, text.take(cut), st).push(
                Seq::<(Seq<char>, SegmentStyle)>::empty(),
            );
            spec_push_text(opened, text.skip(cut + 1), st)
        }
    }
}

/// Append `text` to the styled lines under one style, splitting it at
/// newline boundaries so the output stays line-structured.
pub fn push_text(styled_lines: &mut Vec<StyledPreviewLine>, text: &str, style: SegmentStyle)
    ensures
        lines_view(final(styled_lines)@) == spec_push_text(
            lines_view(old(styled_lines)@),
            text@,
            style,
        ),
{
    if styled_lines.len() == 0 {
        styled_lines.push(Vec::new());
        proof {
            assert(lines_view(styled_lines@) =~~= seq![Seq::<(Seq<char>, SegmentStyle)>::empty()]);
        }
    }
    let ghost target = spec_push_text(lines_view(styled_lines@), text@, style);
    proof {
        assert(spec_push_text(lines_view(old(styled_lines)@), text@, style) == target);
    }
    let cs = chars_of(text);
    let n = cs.len();
    let mut pos: usize = 0;
    proof {
        assert(text@.skip(0) =~= text@);
    }
    loop
        invariant
            pos <= n,
            n == text@.len(),
            cs@ == text@,
            styled_lines@.len() > 0,
            target == spec_push_text(lines_view(old(styled_lines)@), text@, style),
            target == spec_push_text(lines_view(styled_lines@), text@.skip(pos as int), style),
        decreases n - pos,
    {
        if pos == n {
            proof {
                assert(text@.skip(pos as int) =~= Seq::<char>::empty());
            }
            return ;
        }
        let ghost t = text@.skip(pos as int);
        let ghost lv0 = lines_view(styled_lines@);
        proof {
            assert(lv0.len() > 0);
        }
        let found = find_from(&cs, "\n", pos);
        proof {
            reveal_strlit("\n");
            assert("\n"@ =~= seq!['\n']);
            crate::text::lemma_find_in_skip(cs@, seq!['\n'], pos as int, 0);
        }
        match found {
            Some(j) => {
                proof {
                    crate::text::lemma_find_from_bounds(cs@, seq!['\n'], pos as int, j as int);
                    assert(crate::git::spec_line_cut(t) == j - pos);
                }
                let seg = subrange_chars(&cs, pos, j);
                proof {
                    assert(seg@ =~= t.take(j - pos));
                }
                append_segment(styled_lines, seg, style);
                let ghost lv1 = lines_view(styled_lines@);
                styled_lines.push(Vec::new());
                proof {
                    assert(lines_view(styled_lines@) =~~= lv1.push(
                        Seq::<(Seq<char>, SegmentStyle)>::empty(),
                    ));
                    assert(spec_push_text(lv0, t, style) == spec_push_text(
                        spec_append_seg(lv0, t.take(j - pos), style).push(
                            Seq::<(Seq<char>, SegmentStyle)>::empty(),
                        ),
                        t.skip(j - pos + 1),
                        style,
                    ));
                    assert(t.skip(j - pos + 1) =~= text@.skip(j + 1));
                }
                pos = j + 1;
            },
            None => {
                proof {
                    assert(crate::git::spec_line_cut(t) == t.len());
                }
                let seg = subrange_chars(&cs, pos, n);
                proof {
                    assert(seg@ =~= t);
                }
                append_segment(styled_lines, seg, style);
                proof {
                    assert(spec_push_text(lv0, t, style) == spec_append_seg(lv0, t, style));
                }
                return ;
            },
        }
    }
}

/// Append one piece of text to the last styled line, unless it is empty.
fn append_segment(styled_lines: &mut Vec<StyledPreviewLine>, seg: Vec<char>, style: SegmentStyle)
    requires
        old(styled_lines)@.len() > 0,
    ensures
        final(styled_lines)@.len() == old(styled_lines)@.len(),
        lines_view(final(styled_lines)@) == spec_append_seg(
            lines_view(old(styled_lines)@),
            seg@,
            style,
        ),
{
    if seg.len() == 0 {
        proof {
            assert(lines_view(styled_lines@) =~~= spec_append_seg(
                lines_view(styled_lines@),
                seg@,
                style,
            ));
        }
        return ;
    }
    let idx = styled_lines.len() - 1;
    let piece = StyledPreviewSegment { text: crate::text::string_from_chars(&seg), style };
    styled_lines[idx].push(piece);
    proof {
        let old_lv = lines_view(old(styled_lines)@);
        assert(line_view(styled_lines@[idx as int]) =~~= line_view(
            old(styled_lines)@[idx as int],
        ).push((seg@, style)));
        assert(lines_view(styled_lines@) =~~= old_lv.update(
            idx as int,
            old_lv.last().push((seg@, style)),
        ));
    }
}


/// What the event stream folds to: the styled lines built so far and the
/// stack of active captures. Source ranges are clamped into the text, and
/// each emitted range is decoded leniently and split at newlines under the
/// style of the innermost active capture.
pub open spec fn spec_apply_steps(bytes: Seq<u8>, evs: Seq<HighlightStep>) -> (
    Seq<Seq<(Seq<char>, SegmentStyle)>>,
    Seq<usize>,
)
    decreases evs.len(),
{
    if evs.len() == 0 {
        (seq![Seq::<(Seq<char>, SegmentStyle)>::empty()], Seq::<usize>::empty())
    } else {
        let prev = spec_apply_steps(bytes, evs.drop_last());
        let lines = prev.0;
        let stack = prev.1;
        match evs.last() {
            HighlightStep::Start(i) => (lines, stack.push(i)),
            HighlightStep::End => (
                lines,
                if stack.len() > 0 {
                    stack.drop_last()
                } else {
                    stack
                },
            ),
            HighlightStep::Source(s, e) => {
                let s2 = if s <= bytes.len() {
                    s as int
                } else {
                    bytes.len() as int
                };
                let e2 = if e <= bytes.len() {
                    e as int
                } else {
                    bytes.len() as int
                };
                if e2 > s2 {
                    (
                        spec_push_text(
                            lines,
                            crate::text::lossy_decode(bytes.subrange(s2, e2)),
                            spec_current_style(stack),
                        ),
                        stack,
                    )
                } else {
                    (lines, stack)
                }
            },
        }
    }
}

/// Fold the engine's event stream over the source text into styled lines:
/// a stack tracks the active captures, and every emitted source range is
/// appended under the innermost capture's style, split at newlines.
pub fn styled_lines_of_events(content: &str, events: &Vec<HighlightStep>) -> (r: Vec<
    StyledPreviewLine,
>)
    ensures
        lines_view(r@) == spec_apply_steps(content.spec_bytes(), events@).0,
{
    let bytes = content.as_bytes_vec();
    let blen = bytes.len();
    let mut lines: Vec<StyledPreviewLine> = Vec::new();
    lines.push(Vec::new());
    let mut active: Vec<usize> = Vec::new();
    let n = events.len();
    let mut i: usize = 0;
    proof {
        assert(events@.take(0) =~= Seq::<HighlightStep>::empty());
        assert(lines_view(lines@) =~~= seq![Seq::<(Seq<char>, SegmentStyle)>::empty()]);
    }
    while i < n
        invariant
            i <= n,
            n == events@.len(),
            blen == bytes@.len(),
            bytes@ == content.spec_bytes(),
            lines_view(lines@) == spec_apply_steps(bytes@, events@.take(i as int)).0,
            active@ == spec_apply_steps(bytes@, events@.take(i as int)).1,
        decreases n - i,
    {
        proof {
            assert(events@.take(i + 1).drop_last() =~= events@.take(i as int));
            assert(events@.take(i + 1).last() == events@[i as int]);
        }
        match events[i] {
            HighlightStep::Start(x) => {
                active.push(x);
            },
            HighlightStep::End => {
                if active.len() > 0 {
                    active.pop();
                    proof {
                        assert(active@ =~= spec_apply_steps(bytes@, events@.take(i as int)).1
                            .drop_last());
                    }
                }
            },
            HighlightStep::Source(s, e) => {
                let s2 = if s <= blen {
                    s
                } else {
                    blen
                };
                let e2 = if e <= blen {
                    e
                } else {
                    blen
                };
                if e2 > s2 {
                    let seg = crate::text::subrange_bytes(&bytes, s2, e2);
                    let txt = crate::text::decode_lossy(seg.as_slice());
                    let st = current_style(&active);
                    push_text(&mut lines, txt.as_str(), st);
                }
            },
        }
        i = i + 1;
    }
    proof {
        assert(events@.take(n as int) =~= events@);
    }
    lines
}

/// What a highlighting pass produced for one file's text.
#[derive(Debug, Clone)]
pub struct HighlightRenderResult {
    pub rendered_text: String,
    pub content_type: ContentType,
    pub language_id: Option<String>,
    pub styled_lines: Vec<StyledPreviewLine>,
    pub fallback_reason: Option<PreviewFallbackReason>,
}

/// A render that skipped highlighting: plain text under a tagged reason,
/// original text preserved.
pub open spec fn spec_plain_render(r: HighlightRenderResult, reason: PreviewFallbackReason) -> bool {
    &&& r.content_type is PlainText
    &&& r.language_id is None
    &&& r.styled_lines@.len() == 0
    &&& r.fallback_reason == Some(reason)
}

/// Highlight one file's text, degrading to plain text when no grammar fits
/// the path or the engine fails; the original text is always preserved.
pub fn render_with_highlight(ctx: &HighlightContext, path: &str, content: &str) -> (r:
    HighlightRenderResult)
    ensures
        r.rendered_text@ == content@,
        match spec_highlight_language_of(path@) {
            None => spec_plain_render(r, PreviewFallbackReason::UnsupportedExtension),
            Some(l) => {
                if !spec_has_config(*ctx, l) {
                    spec_plain_render(r, PreviewFallbackReason::UnsupportedExtension)
                } else {
                    spec_plain_render(r, PreviewFallbackReason::EngineFailure) || (
                    r.content_type is Highlighted && r.fallback_reason is None
                        && (r.language_id matches Some(id) && id@ == spec_language_id(l)) && (
                    exists|evs: Seq<HighlightStep>|
                        lines_view(r.styled_lines@) == spec_apply_steps(
                            content.spec_bytes(),
                            evs,
                        ).0))
                }
            },
        },
{
    let target = match ctx.target_for_path(path) {
        None => {
            return HighlightRenderResult {
                rendered_text: content.to_owned(),
                content_type: ContentType::PlainText,
                language_id: None,
                styled_lines: Vec::new(),
                fallback_reason: Some(PreviewFallbackReason::UnsupportedExtension),
            };
        },
        Some(t) => t,
    };
    let bytes = content.as_bytes_vec();
    let events = match run_highlighter(ctx, target.config, &bytes) {
        None => {
            return HighlightRenderResult {
                rendered_text: content.to_owned(),
                content_type: ContentType::PlainText,
                language_id: None,
                styled_lines: Vec::new(),
                fallback_reason: Some(PreviewFallbackReason::EngineFailure),
            };
        },
        Some(evs) => evs,
    };
    let styled_lines = styled_lines_of_events(content, &events);
    proof {
        assert(lines_view(styled_lines@) == spec_apply_steps(content.spec_bytes(), events@).0);
    }
    HighlightRenderResult {
        rendered_text: content.to_owned(),
        content_type: ContentType::Highlighted,
        language_id: Some(target.language_id.to_owned()),
        styled_lines,
        fallback_reason: None,
    }
}


} // verus!
