//! User-facing configuration values: the status mode, the color theme and
//! the raw keymap, and how user overrides merge into the defaults.
use vstd::prelude::*;

use crate::text::spec_lowercase;
use crate::text::lowercase_ascii;

verus! {

/// Where the one-line status summary is rendered.
#[derive(Debug, Clone, Copy, PartialEq, Eq, Structural)]
pub enum StatusDisplayMode {
    Bar,
    Title,
}

impl Default for StatusDisplayMode {
    /// The status summary defaults to the bottom bar.
    fn default() -> (r: Self)
        ensures
            r is Bar,
    {
        StatusDisplayMode::Bar
    }
}

/// The theme colors a user may override; extension colors are an
/// association list from extension to color name.
#[derive(Debug, Clone)]
pub struct UserThemeConfig {
    pub directory_color: Option<String>,
    pub fallback_file_color: Option<String>,
    pub hidden_dim_enabled: Option<bool>,
    pub file_type_colors: Vec<(String, String)>,
}

impl Default for UserThemeConfig {
    /// No overrides.
    fn default() -> (r: Self)
        ensures
            r.directory_color is None,
            r.fallback_file_color is None,
            r.hidden_dim_enabled is None,
            r.file_type_colors@.len() == 0,
    {
        UserThemeConfig {
            directory_color: None,
            fallback_file_color: None,
            hidden_dim_enabled: None,
            file_type_colors: Vec::new(),
        }
    }
}

/// The raw user configuration: action-name to key-combo mappings, theme
/// overrides, and the status display mode.
#[derive(Debug, Clone)]
pub struct UserConfig {
    pub mappings: Vec<(String, String)>,
    pub theme: UserThemeConfig,
    pub status_display_mode: Option<StatusDisplayMode>,
}

impl Default for UserConfig {
    /// No mappings, no theme overrides, no status mode.
    fn default() -> (r: Self)
        ensures
            r.mappings@.len() == 0,
            r.status_display_mode is None,
    {
        UserConfig {
            mappings: Vec::new(),
            theme: UserThemeConfig::default(),
            status_display_mode: None,
        }
    }
}

/// The user's raw key mappings alone.
#[derive(Debug, Clone)]
pub struct UserKeymap {
    pub mappings: Vec<(String, String)>,
}

/// The keymap a user configuration carries.
pub fn load_user_keymap(config: UserConfig) -> (r: UserKeymap)
    ensures
        r.mappings@ == config.mappings@,
{
    UserKeymap { mappings: config.mappings }
}

/// The resolved theme: a color per entry kind and an association list from
/// lower-case extension to color name.
#[derive(Debug, Clone)]
pub struct ThemeProfile {
    pub directory_color: String,
    pub fallback_file_color: String,
    pub hidden_dim_enabled: bool,
    pub file_type_colors: Vec<(String, String)>,
}

impl Default for ThemeProfile {
    /// Yellow directories, white fallback, dimmed hidden entries, and four
    /// stock extension colors.
    fn default() -> (r: Self)
        ensures
            r.directory_color@ == "yellow"@,
            r.fallback_file_color@ == "white"@,
            r.hidden_dim_enabled,
            color_entries_view(r.file_type_colors@) =~= seq![
                ("rs"@, "cyan"@),
                ("toml"@, "magenta"@),
                ("md"@, "green"@),
                ("txt"@, "white"@),
            ],
    {
        let mut file_type_colors: Vec<(String, String)> = Vec::new();
        file_type_colors.push(("rs".to_owned(), "cyan".to_owned()));
        file_type_colors.push(("toml".to_owned(), "magenta".to_owned()));
        file_type_colors.push(("md".to_owned(), "green".to_owned()));
        file_type_colors.push(("txt".to_owned(), "white".to_owned()));
        proof {
            assert(color_entries_view(file_type_colors@) =~= seq![
                ("rs"@, "cyan"@),
                ("toml"@, "magenta"@),
                ("md"@, "green"@),
                ("txt"@, "white"@),
            ]);
        }
        ThemeProfile {
            directory_color: "yellow".to_owned(),
            fallback_file_color: "white".to_owned(),
            hidden_dim_enabled: true,
            file_type_colors,
        }
    }
}

/// Warning strings joined for the status line: nothing when there are
/// none, else a tagged, semicolon-separated list.
pub open spec fn spec_warning_text(ws: Seq<Seq<char>>) -> Seq<char> {
    if ws.len() == 0 {
        Seq::empty()
    } else {
        "Keymap warnings: "@ + spec_joined_warnings(ws)
    }
}

/// Warnings joined with semicolons.
pub open spec fn spec_joined_warnings(ws: Seq<Seq<char>>) -> Seq<char>
    decreases ws.len(),
{
    if ws.len() == 0 {
        Seq::empty()
    } else if ws.len() == 1 {
        ws[0]
    } else {
        spec_joined_warnings(ws.drop_last()) + "; "@ + ws.last()
    }
}

/// Render the accumulated configuration warnings for the status line.
pub fn render_warning_text(warnings: &Vec<String>) -> (r: String)
    ensures
        r@ == spec_warning_text(warnings@.map_values(|s: String| s@)),
{
    let ghost wv = warnings@.map_values(|s: String| s@);
    if warnings.len() == 0 {
        return String::new();
    }
    let mut out = "Keymap warnings: ".to_owned();
    out.append(warnings[0].as_str());
    proof {
        assert(wv.take(1) =~= seq![wv[0]]);
        assert(spec_joined_warnings(wv.take(1)) == wv[0]);
    }
    let n = warnings.len();
    let mut i: usize = 1;
    while i < n
        invariant
            1 <= i <= n,
            n == warnings@.len(),
            wv == warnings@.map_values(|s: String| s@),
            out@ == "Keymap warnings: "@ + spec_joined_warnings(wv.take(i as int)),
        decreases n - i,
    {
        out.append("; ");
        out.append(warnings[i].as_str());
        proof {
            assert(wv.take(i + 1).drop_last() =~= wv.take(i as int));
            assert(wv.take(i + 1).last() == wv[i as int]);
        }
        i = i + 1;
    }
    proof {
        assert(wv.take(n as int) =~= wv);
    }
    out
}

/// The view of an extension-color list: each pair by its characters.
pub open spec fn color_entries_view(s: Seq<(String, String)>) -> Seq<(Seq<char>, Seq<char>)> {
    s.map_values(|p: (String, String)| (p.0@, p.1@))
}

/// `s` with `(k, c)` recorded: the first entry holding `k` is replaced in
/// place, or the pair is appended when none does.
pub open spec fn spec_upsert_color(s: Seq<(Seq<char>, Seq<char>)>, k: Seq<char>, c: Seq<char>) -> Seq<
    (Seq<char>, Seq<char>),
>
    decreases s.len(),
{
    if s.len() == 0 {
        seq![(k, c)]
    } else if s.first().0 == k {
        seq![(k, c)] + s.drop_first()
    } else {
        seq![s.first()] + spec_upsert_color(s.drop_first(), k, c)
    }
}

/// The extension colors after every user override, lower-cased, is recorded
/// over the defaults in order.
pub open spec fn spec_merge_colors(
    base: Seq<(Seq<char>, Seq<char>)>,
    user: Seq<(Seq<char>, Seq<char>)>,
) -> Seq<(Seq<char>, Seq<char>)>
    decreases user.len(),
{
    if user.len() == 0 {
        base
    } else {
        spec_upsert_color(
            spec_merge_colors(base, user.drop_last()),
            spec_lowercase(user.last().0),
            spec_lowercase(user.last().1),
        )
    }
}

/// Where the scan stopped is where the spec records the pair.
proof fn lemma_upsert_color_at(s: Seq<(Seq<char>, Seq<char>)>, k: Seq<char>, c: Seq<char>, i: int)
    requires
        0 <= i <= s.len(),
        forall|j: int| 0 <= j < i ==> (#[trigger] s[j]).0 != k,
        i < s.len() ==> s[i].0 == k,
    ensures
        i < s.len() ==> spec_upsert_color(s, k, c) == s.update(i, (k, c)),
        i == s.len() ==> spec_upsert_color(s, k, c) == s.push((k, c)),
    decreases i,
{
    if i == 0 {
        if s.len() == 0 {
            assert(spec_upsert_color(s, k, c) =~= s.push((k, c)));
        } else if s[0].0 == k {
            assert(seq![(k, c)] + s.drop_first() =~= s.update(0, (k, c)));
        }
    } else {
        assert(s[0].0 != k);
        lemma_upsert_color_at(s.drop_first(), k, c, i - 1);
        if i < s.len() {
            assert(seq![s.first()] + s.drop_first().update(i - 1, (k, c)) =~= s.update(i, (k, c)));
        } else {
            assert(seq![s.first()] + s.drop_first().push((k, c)) =~= s.push((k, c)));
        }
    }
}

/// Record `(key, color)` in the extension colors, replacing the first entry
/// holding the key or appending a new one.
fn upsert_color(v: &mut Vec<(String, String)>, key: String, color: String)
    ensures
        color_entries_view(final(v)@) == spec_upsert_color(
            color_entries_view(old(v)@),
            key@,
            color@,
        ),
{
    let n = v.len();
    let mut i: usize = 0;
    while i < n
        invariant
            i <= n,
            n == v@.len(),
            *v == *old(v),
            forall|j: int| 0 <= j < i ==> (#[trigger] color_entries_view(v@)[j]).0 != key@,
        decreases n - i,
    {
        if v[i].0.eq(&key) {
            proof {
                assert(color_entries_view(v@)[i as int].0 == key@);
                lemma_upsert_color_at(color_entries_view(v@), key@, color@, i as int);
            }
            v[i].1 = color;
            proof {
                assert(color_entries_view(v@) =~= color_entries_view(old(v)@).update(
                    i as int,
                    (key@, color@),
                ));
            }
            return ;
        }
        proof {
            assert(color_entries_view(v@)[i as int].0 == v@[i as int].0@);
        }
        i = i + 1;
    }
    proof {
        lemma_upsert_color_at(color_entries_view(v@), key@, color@, v@.len() as int);
    }
    v.push((key, color));
    proof {
        assert(color_entries_view(v@) =~= color_entries_view(old(v)@).push((key@, color@)));
    }
}

/// Merge the user's theme overrides into the defaults: overridden colors are
/// stored lower-cased; extension colors are recorded in order over the
/// defaults; everything else keeps its default.
pub fn merge_theme_profile(defaults: ThemeProfile, user: &UserThemeConfig) -> (r: ThemeProfile)
    ensures
        r.directory_color@ == (match user.directory_color {
            Some(c) => spec_lowercase(c@),
            None => defaults.directory_color@,
        }),
        r.fallback_file_color@ == (match user.fallback_file_color {
            Some(c) => spec_lowercase(c@),
            None => defaults.fallback_file_color@,
        }),
        r.hidden_dim_enabled == (match user.hidden_dim_enabled {
            Some(d) => d,
            None => defaults.hidden_dim_enabled,
        }),
        color_entries_view(r.file_type_colors@) == spec_merge_colors(
            color_entries_view(defaults.file_type_colors@),
            color_entries_view(user.file_type_colors@),
        ),
{
    let mut merged = defaults;
    if let Some(color) = &user.directory_color {
        merged.directory_color = lowercase_ascii(color.as_str());
    }
    if let Some(color) = &user.fallback_file_color {
        merged.fallback_file_color = lowercase_ascii(color.as_str());
    }
    if let Some(dim) = user.hidden_dim_enabled {
        merged.hidden_dim_enabled = dim;
    }
    let n = user.file_type_colors.len();
    let ghost pre = merged;
    proof {
        assert(color_entries_view(user.file_type_colors@).take(0) =~= Seq::<
            (Seq<char>, Seq<char>),
        >::empty());
    }
    let mut i: usize = 0;
    while i < n
        invariant
            i <= n,
            n == user.file_type_colors@.len(),
            color_entries_view(merged.file_type_colors@) == spec_merge_colors(
                color_entries_view(pre.file_type_colors@),
                color_entries_view(user.file_type_colors@).take(i as int),
            ),
            pre.file_type_colors@ == defaults.file_type_colors@,
            merged.directory_color == pre.directory_color,
            merged.fallback_file_color == pre.fallback_file_color,
            merged.hidden_dim_enabled == pre.hidden_dim_enabled,
        decreases n - i,
    {
        let ext = lowercase_ascii(user.file_type_colors[i].0.as_str());
        let color = lowercase_ascii(user.file_type_colors[i].1.as_str());
        upsert_color(&mut merged.file_type_colors, ext, color);
        proof {
            assert(color_entries_view(user.file_type_colors@).take(i + 1).drop_last()
                =~= color_entries_view(user.file_type_colors@).take(i as int));
            assert(color_entries_view(user.file_type_colors@).take(i + 1).last()
                == color_entries_view(user.file_type_colors@)[i as int]);
        }
        i = i + 1;
    }
    proof {
        assert(color_entries_view(user.file_type_colors@).take(n as int) =~= color_entries_view(
            user.file_type_colors@,
        ));
    }
    merged
}

} // verus!
