//! Version-control status: the per-file status codes, the parsed repository
//! status attached to a session, and the parser for porcelain status text.
//!
//! The parser reads the text one character at a time: a header line names
//! the branch, every following line of at least three characters carries two
//! status code characters and a path.
use vstd::prelude::*;

use crate::text::chars_of;
use crate::text::chars_eq;
use crate::text::find_from;
use crate::text::has_at;
use crate::text::spec_find_from;
use crate::text::spec_find_last;
use crate::text::spec_has_at;
use crate::text::spec_trim;
use crate::text::spec_skip_clamped;
use crate::text::lemma_find_from_bounds;
use crate::text::lemma_find_from_lower_bound;
use crate::text::lemma_find_in_skip;
use crate::text::lemma_find_last_bounds;
use crate::text::string_from_chars;
use crate::text::subrange_chars;
use crate::text::trim_chars;

verus! {

/// Classification of one path in the repository's porcelain status output.
#[derive(Debug, Clone, Copy, PartialEq, Eq, Structural)]
pub enum GitFileStatus {
    Added,
    Modified,
    Deleted,
    Renamed,
    Copied,
    Untracked,
    Conflicted,
    Ignored,
}

/// Parsed status of the repository containing the current directory.
///
/// `file_statuses` is an association list from a repository-relative path to
/// its status; a path occurs at most once.
#[derive(Debug, Clone, PartialEq, Eq)]
pub struct GitRepoStatus {
    pub branch: String,
    pub repo_root: String,
    pub file_statuses: Vec<(String, GitFileStatus)>,
}

/// The statuses of `s`, read as a map from path to status.
pub open spec fn status_map_of(s: Seq<(Seq<char>, GitFileStatus)>) -> Map<Seq<char>, GitFileStatus> {
    Map::new(
        |k: Seq<char>| exists|i: int| 0 <= i < s.len() && s[i].0 == k,
        |k: Seq<char>| s[choose|i: int| 0 <= i < s.len() && s[i].0 == k].1,
    )
}

/// The view of an entry list: each pair with its strings by view.
pub open spec fn entries_view(s: Seq<(String, GitFileStatus)>) -> Seq<(Seq<char>, GitFileStatus)> {
    s.map_values(|p: (String, GitFileStatus)| (p.0@, p.1))
}

/// Each path occurs at most once in `s`.
pub open spec fn unique_keys(s: Seq<(Seq<char>, GitFileStatus)>) -> bool {
    forall|i: int, j: int| 0 <= i < j < s.len() ==> s[i].0 != s[j].0
}

/// How many of the statuses in `s` count as changes: all but `Ignored`.
pub open spec fn spec_change_count(s: Seq<(Seq<char>, GitFileStatus)>) -> nat
    decreases s.len(),
{
    if s.len() == 0 {
        0
    } else {
        spec_change_count(s.drop_last()) + (if s.last().1 is Ignored { 0nat } else { 1nat })
    }
}

impl GitRepoStatus {
    /// A valid status holds each path at most once.
    pub open spec fn wf(self) -> bool {
        unique_keys(entries_view(self.file_statuses@))
    }

    /// The number of recorded paths whose status is anything but `Ignored`.
    pub fn change_count(&self) -> (n: usize)
        ensures
            n == spec_change_count(entries_view(self.file_statuses@)),
    {
        let mut n: usize = 0;
        let mut i: usize = 0;
        while i < self.file_statuses.len()
            invariant
                i <= self.file_statuses.len(),
                n == spec_change_count(entries_view(self.file_statuses@).take(i as int)),
                n <= i,
            decreases self.file_statuses.len() - i,
        {
            proof {
                assert(entries_view(self.file_statuses@).take(i + 1).drop_last() =~= entries_view(
                    self.file_statuses@,
                ).take(i as int));
            }
            if !matches!(self.file_statuses[i].1, GitFileStatus::Ignored) {
                n = n + 1;
            }
            i = i + 1;
        }
        proof {
            assert(entries_view(self.file_statuses@).take(self.file_statuses@.len() as int)
                =~= entries_view(self.file_statuses@));
        }
        n
    }
}

impl Default for GitRepoStatus {
    /// An empty status: no branch, no root, no recorded paths.
    fn default() -> (r: Self)
        ensures
            r.branch@ == Seq::<char>::empty(),
            r.repo_root@ == Seq::<char>::empty(),
            r.file_statuses@.len() == 0,
    {
        GitRepoStatus { branch: String::new(), repo_root: String::new(), file_statuses: Vec::new() }
    }
}

impl GitFileStatus {
    /// The one-character short code shown beside an entry.
    pub fn label(self) -> (r: &'static str)
        ensures
            r@ == spec_label(self),
    {
        proof {
            reveal_strlit("A");
            reveal_strlit("M");
            reveal_strlit("D");
            reveal_strlit("R");
            reveal_strlit("C");
            reveal_strlit("?");
            reveal_strlit("U");
            reveal_strlit("!");
        }
        match self {
            GitFileStatus::Added => "A",
            GitFileStatus::Modified => "M",
            GitFileStatus::Deleted => "D",
            GitFileStatus::Renamed => "R",
            GitFileStatus::Copied => "C",
            GitFileStatus::Untracked => "?",
            GitFileStatus::Conflicted => "U",
            GitFileStatus::Ignored => "!",
        }
    }
}

/// The short code of each status, as a sequence of characters.
pub open spec fn spec_label(s: GitFileStatus) -> Seq<char> {
    match s {
        GitFileStatus::Added => seq!['A'],
        GitFileStatus::Modified => seq!['M'],
        GitFileStatus::Deleted => seq!['D'],
        GitFileStatus::Renamed => seq!['R'],
        GitFileStatus::Copied => seq!['C'],
        GitFileStatus::Untracked => seq!['?'],
        GitFileStatus::Conflicted => seq!['U'],
        GitFileStatus::Ignored => seq!['!'],
    }
}

/// A line without a trailing carriage return.
pub open spec fn spec_strip_cr(l: Seq<char>) -> Seq<char> {
    if l.len() > 0 && l.last() == '\r' {
        l.drop_last()
    } else {
        l
    }
}

/// Where the first line of `s` ends: at its first newline, or at the end of
/// the text.
pub open spec fn spec_line_cut(s: Seq<char>) -> int {
    match spec_find_from(s, seq!['\n'], 0) {
        Some(i) => if 0 <= i < s.len() {
            i
        } else {
            s.len() as int
        },
        None => s.len() as int,
    }
}

/// The lines of `s`: pieces split at newlines, each without a trailing
/// carriage return; a final newline ends the last line rather than opening
/// an empty one.
pub open spec fn spec_split_lines(s: Seq<char>) -> Seq<Seq<char>>
    decreases s.len(),
{
    if s.len() == 0 {
        Seq::empty()
    } else {
        let cut = spec_line_cut(s);
        let rest = s.skip(
            if cut + 1 <= s.len() {
                cut + 1
            } else {
                s.len() as int
            },
        );
        seq![spec_strip_cr(s.take(cut))] + spec_split_lines(rest)
    }
}

/// A line without its trailing carriage return, executably.
fn strip_cr(v: Vec<char>) -> (r: Vec<char>)
    ensures
        r@ == spec_strip_cr(v@),
{
    let n = v.len();
    if n > 0 && v[n - 1] == '\r' {
        subrange_chars(&v, 0, n - 1)
    } else {
        proof {
            assert(v@.subrange(0, n as int) =~= v@);
        }
        v
    }
}

/// The lines of a text, split at newlines, each without a trailing carriage
/// return.
pub fn split_lines(cs: &Vec<char>) -> (r: Vec<Vec<char>>)
    ensures
        r@.map_values(|l: Vec<char>| l@) == spec_split_lines(cs@),
{
    let n = cs.len();
    let mut out: Vec<Vec<char>> = Vec::new();
    let mut pos: usize = 0;
    proof {
        assert(cs@.skip(0) =~= cs@);
    }
    loop
        invariant
            pos <= n,
            n == cs@.len(),
            spec_split_lines(cs@) == out@.map_values(|l: Vec<char>| l@) + spec_split_lines(
                cs@.skip(pos as int),
            ),
        decreases n - pos,
    {
        if pos == n {
            proof {
                assert(spec_split_lines(cs@.skip(pos as int)) =~= Seq::<Seq<char>>::empty());
                assert(out@.map_values(|l: Vec<char>| l@) + Seq::<Seq<char>>::empty()
                    =~= out@.map_values(|l: Vec<char>| l@));
            }
            return out;
        }
        let ghost t = cs@.skip(pos as int);
        let found = find_from(cs, "\n", pos);
        proof {
            reveal_strlit("\n");
            assert("\n"@ =~= seq!['\n']);
            lemma_find_in_skip(cs@, seq!['\n'], pos as int, 0);
            if pos > 0 {
                lemma_find_from_lower_bound(cs@, seq!['\n'], pos as int);
            }
        }
        match found {
            Some(j) => {
                proof {
                    assert(spec_find_from(cs@, seq!['\n'], pos as int) == Some(j as int));
                    lemma_find_from_bounds(cs@, seq!['\n'], pos as int, j as int);
                    assert(spec_line_cut(t) == j - pos);
                }
                let line = strip_cr(subrange_chars(cs, pos, j));
                proof {
                    assert(cs@.subrange(pos as int, j as int) =~= t.take(j - pos));
                }
                out.push(line);
                proof {
                    assert(t.skip(j - pos + 1) =~= cs@.skip(j + 1));
                    assert(out@.map_values(|l: Vec<char>| l@) =~= out@.drop_last().map_values(
                        |l: Vec<char>| l@,
                    ).push(line@));
                    assert(out@.drop_last().map_values(|l: Vec<char>| l@).push(line@)
                        + spec_split_lines(cs@.skip(j + 1)) =~= out@.drop_last().map_values(
                        |l: Vec<char>| l@,
                    ) + (seq![line@] + spec_split_lines(cs@.skip(j + 1))));
                }
                pos = j + 1;
            },
            None => {
                proof {
                    assert(spec_line_cut(t) == t.len());
                }
                let line = strip_cr(subrange_chars(cs, pos, n));
                proof {
                    assert(cs@.subrange(pos as int, n as int) =~= t.take(t.len() as int));
                }
                out.push(line);
                proof {
                    assert(t.skip(t.len() as int) =~= Seq::<char>::empty());
                    assert(spec_split_lines(Seq::<char>::empty()) =~= Seq::<Seq<char>>::empty());
                    assert(t.take(t.len() as int) =~= t);
                    assert(seq![line@] + Seq::<Seq<char>>::empty() =~= seq![line@]);
                    assert(spec_split_lines(t) =~= seq![line@]);
                    assert(out@.map_values(|l: Vec<char>| l@) =~= out@.drop_last().map_values(
                        |l: Vec<char>| l@,
                    ).push(line@));
                    assert(out@.drop_last().map_values(|l: Vec<char>| l@).push(line@)
                        =~= out@.drop_last().map_values(|l: Vec<char>| l@) + seq![line@]);
                }
                return out;
            },
        }
    }
}

/// Whether the two status code characters mark a merge conflict.
pub open spec fn spec_is_conflict(x: char, y: char) -> bool {
    x == 'U' || y == 'U' || (x == 'A' && y == 'A') || (x == 'D' && y == 'D')
}

/// Whether the two status code characters mark a merge conflict.
pub fn is_conflict_state(x: char, y: char) -> (r: bool)
    ensures
        r == spec_is_conflict(x, y),
{
    x == 'U' || y == 'U' || (x == 'A' && y == 'A') || (x == 'D' && y == 'D')
}

/// The status of a two-code line, by the fixed precedence: conflict, then
/// rename, delete, add, copy, modify; anything else carries no status.
pub open spec fn spec_classify(x: char, y: char) -> Option<GitFileStatus> {
    if spec_is_conflict(x, y) {
        Some(GitFileStatus::Conflicted)
    } else if x == 'R' || y == 'R' {
        Some(GitFileStatus::Renamed)
    } else if x == 'D' || y == 'D' {
        Some(GitFileStatus::Deleted)
    } else if x == 'A' || y == 'A' {
        Some(GitFileStatus::Added)
    } else if x == 'C' || y == 'C' {
        Some(GitFileStatus::Copied)
    } else if x == 'M' || x == 'T' || y == 'M' || y == 'T' {
        Some(GitFileStatus::Modified)
    } else {
        None
    }
}

/// Classify a two-code status line by its index and worktree characters.
pub fn classify_file_status(x: char, y: char) -> (r: Option<GitFileStatus>)
    ensures
        r == spec_classify(x, y),
{
    if is_conflict_state(x, y) {
        Some(GitFileStatus::Conflicted)
    } else if x == 'R' || y == 'R' {
        Some(GitFileStatus::Renamed)
    } else if x == 'D' || y == 'D' {
        Some(GitFileStatus::Deleted)
    } else if x == 'A' || y == 'A' {
        Some(GitFileStatus::Added)
    } else if x == 'C' || y == 'C' {
        Some(GitFileStatus::Copied)
    } else if x == 'M' || x == 'T' || y == 'M' || y == 'T' {
        Some(GitFileStatus::Modified)
    } else {
        None
    }
}

/// The path a status line names: the text after the two codes, and, for a
/// rename, only what follows the last arrow.
pub open spec fn spec_path_from_status_line(line: Seq<char>) -> Seq<char> {
    let payload = spec_trim(spec_skip_clamped(line, 3));
    match spec_find_last(payload, " -> "@) {
        None => payload,
        Some(i) => spec_trim(spec_skip_clamped(payload, i + 4)),
    }
}

/// The path of one status line.
pub fn parse_path_from_status_line(line: &str) -> (r: String)
    ensures
        r@ == spec_path_from_status_line(line@),
{
    let cs = chars_of(line);
    parse_path_chars(&cs)
}

/// The path of one status line, from its characters.
fn parse_path_chars(cs: &Vec<char>) -> (r: String)
    ensures
        r@ == spec_path_from_status_line(cs@),
{
    let n = cs.len();
    let tail = if n >= 3 {
        subrange_chars(cs, 3, n)
    } else {
        subrange_chars(cs, n, n)
    };
    proof {
        if n >= 3 {
            assert(cs@.subrange(3, n as int) =~= spec_skip_clamped(cs@, 3));
        } else {
            assert(cs@.subrange(n as int, n as int) =~= spec_skip_clamped(cs@, 3)) by {
                if n < 3 {
                    assert(spec_skip_clamped(cs@, 3) =~= cs@.skip(n as int));
                }
            }
        }
    }
    let payload = trim_chars(&tail);
    proof {
        reveal_strlit(" -> ");
    }
    let arrow_len = " -> ".unicode_len();
    match crate::text::find_last(&payload, " -> ", arrow_len) {
        None => string_from_chars(&payload),
        Some(i) => {
            let plen = payload.len();
            proof {
                lemma_find_last_bounds(payload@, " -> "@, payload@.len() - " -> "@.len(), i as int);
                assert(" -> "@.len() == 4);
                assert(i + 4 <= plen);
                assert(payload@.skip(i + 4) =~= spec_skip_clamped(payload@, i + 4));
            }
            let after = subrange_chars(&payload, i + 4, plen);
            proof {
                assert(after@ =~= payload@.skip(i + 4));
            }
            let trimmed = trim_chars(&after);
            string_from_chars(&trimmed)
        },
    }
}

/// The header detail with every leading `## ` marker removed.
pub open spec fn spec_after_header_marker(s: Seq<char>) -> Seq<char>
    decreases s.len(),
{
    if spec_has_at(s, "## "@, 0) && s.len() >= 3 {
        spec_after_header_marker(s.skip(3))
    } else {
        s
    }
}

/// The branch a header line names: after the `## ` marker, an empty detail
/// names none; `No commits yet on X` names `X`; `HEAD (no branch)` names
/// `detached`; otherwise the text before the first `...` or, failing that,
/// the first space, trimmed, if anything remains of it.
pub open spec fn spec_parse_branch(head: Seq<char>) -> Option<Seq<char>> {
    let detail = spec_trim(spec_after_header_marker(head));
    if detail.len() == 0 {
        None
    } else if spec_has_at(detail, "No commits yet on "@, 0) {
        let b = spec_trim(spec_skip_clamped(detail, "No commits yet on "@.len() as int));
        if b.len() == 0 {
            None
        } else {
            Some(b)
        }
    } else if detail == "HEAD (no branch)"@ {
        Some("detached"@)
    } else {
        match spec_find_from(detail, "..."@, 0) {
            Some(i) => {
                let d = spec_trim(detail.take(i));
                if d.len() == 0 {
                    None
                } else {
                    Some(d)
                }
            },
            None => match spec_find_from(detail, " "@, 0) {
                Some(i) => {
                    let d = spec_trim(detail.take(i));
                    if d.len() == 0 {
                        None
                    } else {
                        Some(d)
                    }
                },
                None => Some(detail),
            },
        }
    }
}

/// The branch named by a porcelain header line.
pub fn parse_branch_name(head_line: &str) -> (r: Option<String>)
    ensures
        match r {
            Some(b) => spec_parse_branch(head_line@) == Some(b@),
            None => spec_parse_branch(head_line@) is None,
        },
{
    let cs = chars_of(head_line);
    parse_branch_chars(&cs)
}

/// The branch named by a header line, from its characters.
fn parse_branch_chars(cs: &Vec<char>) -> (r: Option<String>)
    ensures
        match r {
            Some(b) => spec_parse_branch(cs@) == Some(b@),
            None => spec_parse_branch(cs@) is None,
        },
{
    let mut rest = subrange_chars(cs, 0, cs.len());
    proof {
        assert(rest@ =~= cs@);
    }
    while has_at(&rest, "## ", 0) && rest.len() >= 3
        invariant
            spec_after_header_marker(cs@) == spec_after_header_marker(rest@),
        decreases rest@.len(),
    {
        let n = rest.len();
        let next = subrange_chars(&rest, 3, n);
        proof {
            assert(next@ =~= rest@.skip(3));
        }
        rest = next;
    }
    proof {
        assert(spec_after_header_marker(rest@) == rest@);
    }
    let detail = trim_chars(&rest);
    if detail.len() == 0 {
        return None;
    }
    proof {
        reveal_strlit("No commits yet on ");
    }
    if has_at(&detail, "No commits yet on ", 0) {
        let plen = "No commits yet on ".unicode_len();
        proof {
            assert(detail@.skip(plen as int) =~= spec_skip_clamped(detail@, plen as int));
        }
        let tail = subrange_chars(&detail, plen, detail.len());
        proof {
            assert(tail@ =~= detail@.skip(plen as int));
        }
        let b = trim_chars(&tail);
        if b.len() == 0 {
            return None;
        }
        return Some(string_from_chars(&b));
    }
    let head_no_branch = chars_of("HEAD (no branch)");
    if chars_eq(&detail, &head_no_branch) {
        return Some("detached".to_owned());
    }
    let cut: Option<usize> = match find_from(&detail, "...", 0) {
        Some(i) => Some(i),
        None => match find_from(&detail, " ", 0) {
            Some(i) => Some(i),
            None => None,
        },
    };
    match cut {
        Some(i) => {
            proof {
                if spec_find_from(detail@, "..."@, 0) is Some {
                    lemma_find_from_bounds(
                        detail@,
                        "..."@,
                        0,
                        spec_find_from(detail@, "..."@, 0)->0,
                    );
                } else {
                    lemma_find_from_bounds(detail@, " "@, 0, spec_find_from(detail@, " "@, 0)->0);
                }
            }
            let left = subrange_chars(&detail, 0, i);
            proof {
                assert(left@ =~= detail@.take(i as int));
            }
            let d = trim_chars(&left);
            if d.len() == 0 {
                None
            } else {
                Some(string_from_chars(&d))
            }
        },
        None => Some(string_from_chars(&detail)),
    }
}

/// What one status line contributes to the path map: nothing under three
/// characters; `?? ` always Untracked and `!! ` always Ignored; otherwise
/// the two-code classification with the line's path, where both exist.
pub open spec fn spec_line_entry(line: Seq<char>) -> Option<(Seq<char>, GitFileStatus)> {
    if line.len() < 3 {
        None
    } else if spec_has_at(line, "?? "@, 0) {
        Some((spec_trim(spec_skip_clamped(line, 3)), GitFileStatus::Untracked))
    } else if spec_has_at(line, "!! "@, 0) {
        Some((spec_trim(spec_skip_clamped(line, 3)), GitFileStatus::Ignored))
    } else {
        match spec_classify(line[0], line[1]) {
            None => None,
            Some(st) => {
                let p = spec_path_from_status_line(line);
                if p.len() == 0 {
                    None
                } else {
                    Some((p, st))
                }
            },
        }
    }
}

/// The path map that a sequence of status lines builds up, later lines
/// overriding earlier ones for the same path.
pub open spec fn spec_status_map(lines: Seq<Seq<char>>) -> Map<Seq<char>, GitFileStatus>
    decreases lines.len(),
{
    if lines.len() == 0 {
        Map::empty()
    } else {
        let m = spec_status_map(lines.drop_last());
        match spec_line_entry(lines.last()) {
            None => m,
            Some((p, st)) => m.insert(p, st),
        }
    }
}

/// Appending a fresh key records exactly that key.
proof fn lemma_status_map_push(s: Seq<(Seq<char>, GitFileStatus)>, k: Seq<char>, st: GitFileStatus)
    requires
        forall|i: int| 0 <= i < s.len() ==> s[i].0 != k,
        unique_keys(s),
    ensures
        status_map_of(s.push((k, st))) =~= status_map_of(s).insert(k, st),
        unique_keys(s.push((k, st))),
{
    let t = s.push((k, st));
    let lhs = status_map_of(t);
    let rhs = status_map_of(s).insert(k, st);
    assert forall|q: Seq<char>| lhs.contains_key(q) implies rhs.contains_key(q) by {
        let i = choose|i: int| 0 <= i < t.len() && t[i].0 == q;
        if i < s.len() {
            assert(s[i].0 == q);
        }
    }
    assert forall|q: Seq<char>| rhs.contains_key(q) implies lhs.contains_key(q) by {
        if q == k {
            assert(t[s.len() as int].0 == q);
        } else {
            let i = choose|i: int| 0 <= i < s.len() && s[i].0 == q;
            assert(t[i].0 == q);
        }
    }
    assert forall|q: Seq<char>| lhs.contains_key(q) implies lhs[q] == rhs[q] by {
        let i = choose|i: int| 0 <= i < t.len() && t[i].0 == q;
        if q == k {
            assert forall|j: int| 0 <= j < t.len() && t[j].0 == q implies j == s.len() by {
                if j < s.len() {
                    assert(s[j].0 == q);
                }
            }
            assert(lhs[q] == st);
        } else {
            assert(i < s.len());
            assert forall|j: int| 0 <= j < t.len() && t[j].0 == q implies j == i by {
                if j < s.len() {
                    assert(s[j].0 == q && s[i].0 == q);
                } else {
                    assert(t[j].0 == k);
                }
            }
            assert(s[i].0 == q);
            assert forall|j: int| 0 <= j < s.len() && s[j].0 == q implies j == i by {}
            assert(lhs[q] == t[i].1 && rhs[q] == s[i].1);
        }
    }
    assert(lhs =~= rhs);
}

/// Overwriting the entry that holds a key records that key anew.
proof fn lemma_status_map_update(s: Seq<(Seq<char>, GitFileStatus)>, i: int, st: GitFileStatus)
    requires
        unique_keys(s),
        0 <= i < s.len(),
    ensures
        status_map_of(s.update(i, (s[i].0, st))) =~= status_map_of(s).insert(s[i].0, st),
        unique_keys(s.update(i, (s[i].0, st))),
{
    let k = s[i].0;
    let t = s.update(i, (k, st));
    let lhs = status_map_of(t);
    let rhs = status_map_of(s).insert(k, st);
    assert forall|q: Seq<char>| lhs.contains_key(q) implies rhs.contains_key(q) by {
        let j = choose|j: int| 0 <= j < t.len() && t[j].0 == q;
        assert(s[j].0 == q);
    }
    assert forall|q: Seq<char>| rhs.contains_key(q) implies lhs.contains_key(q) by {
        if q == k {
            assert(t[i].0 == q);
        } else {
            let j = choose|j: int| 0 <= j < s.len() && s[j].0 == q;
            assert(t[j].0 == q);
        }
    }
    assert forall|q: Seq<char>| lhs.contains_key(q) implies lhs[q] == rhs[q] by {
        let j = choose|j: int| 0 <= j < t.len() && t[j].0 == q;
        assert forall|j2: int| 0 <= j2 < t.len() && t[j2].0 == q implies j2 == j by {
            assert(s[j2].0 == q && s[j].0 == q);
        }
        if q == k {
            assert(t[i].0 == q);
            assert(j == i);
            assert(lhs[q] == st);
        } else {
            assert(j != i);
            assert(s[j].0 == q);
            assert forall|j2: int| 0 <= j2 < s.len() && s[j2].0 == q implies j2 == j by {}
            assert(lhs[q] == t[j].1 && rhs[q] == s[j].1);
        }
    }
    assert(lhs =~= rhs);
}

/// Record `key` with status `st`, replacing any earlier record of the key.
fn upsert_status(v: &mut Vec<(String, GitFileStatus)>, key: String, st: GitFileStatus)
    requires
        unique_keys(entries_view(old(v)@)),
    ensures
        unique_keys(entries_view(final(v)@)),
        status_map_of(entries_view(final(v)@)) == status_map_of(entries_view(old(v)@)).insert(
            key@,
            st,
        ),
{
    let n = v.len();
    let mut i: usize = 0;
    while i < n
        invariant
            i <= n,
            n == v@.len(),
            *v == *old(v),
            unique_keys(entries_view(v@)),
            forall|j: int| 0 <= j < i ==> entries_view(v@)[j].0 != key@,
        decreases n - i,
    {
        if v[i].0.eq(&key) {
            proof {
                assert(entries_view(v@)[i as int].0 == key@);
            }
            v[i].1 = st;
            proof {
                let s = entries_view(old(v)@);
                lemma_status_map_update(s, i as int, st);
                assert(entries_view(v@) =~= s.update(i as int, (s[i as int].0, st)));
            }
            return ;
        }
        proof {
            assert(entries_view(v@)[i as int].0 == v@[i as int].0@);
        }
        i = i + 1;
    }
    proof {
        let s = entries_view(v@);
        lemma_status_map_push(s, key@, st);
    }
    v.push((key, st));
    proof {
        assert(entries_view(v@) =~= entries_view(old(v)@).push((key@, st)));
    }
}

/// Whether `text` parses as porcelain status output, and the branch it then
/// names: the first line must carry the `## ` marker and name a branch.
pub open spec fn spec_porcelain_branch(text: Seq<char>) -> Option<Seq<char>> {
    let lines = spec_split_lines(text);
    if lines.len() == 0 {
        None
    } else if !spec_has_at(lines[0], "## "@, 0) {
        None
    } else {
        spec_parse_branch(lines[0])
    }
}

/// Parse porcelain status text into a branch name and a path map.
///
/// The parse succeeds exactly when the first line carries the `## ` marker
/// and names a branch; the map then records what the remaining lines say,
/// later lines overriding earlier ones for the same path.
pub fn parse_porcelain_status(text: &str, repo_root: String) -> (r: Option<GitRepoStatus>)
    ensures
        match r {
            Some(g) => {
                &&& spec_porcelain_branch(text@) == Some(g.branch@)
                &&& g.repo_root@ == repo_root@
                &&& g.wf()
                &&& status_map_of(entries_view(g.file_statuses@)) == spec_status_map(
                    spec_split_lines(text@).drop_first(),
                )
            },
            None => spec_porcelain_branch(text@) is None,
        },
{
    let cs = chars_of(text);
    let lines = split_lines(&cs);
    proof {
        assert(lines@.map_values(|l: Vec<char>| l@) == spec_split_lines(cs@));
    }
    if lines.len() == 0 {
        return None;
    }
    proof {
        assert(lines@.map_values(|l: Vec<char>| l@)[0] == lines@[0]@);
    }
    if !has_at(&lines[0], "## ", 0) {
        return None;
    }
    let branch = match parse_branch_chars(&lines[0]) {
        None => {
            return None;
        },
        Some(b) => b,
    };
    let mut file_statuses: Vec<(String, GitFileStatus)> = Vec::new();
    let ghost all_lines = spec_split_lines(text@);
    let n = lines.len();
    let mut i: usize = 1;
    proof {
        assert(all_lines.subrange(1, 1) =~= Seq::<Seq<char>>::empty());
    }
    while i < n
        invariant
            1 <= i <= n,
            n == lines@.len(),
            all_lines == lines@.map_values(|l: Vec<char>| l@),
            unique_keys(entries_view(file_statuses@)),
            status_map_of(entries_view(file_statuses@)) == spec_status_map(
                all_lines.subrange(1, i as int),
            ),
        decreases n - i,
    {
        let line = &lines[i];
        proof {
            assert(all_lines[i as int] == lines@[i as int]@);
            assert(all_lines.subrange(1, i + 1).drop_last() =~= all_lines.subrange(1, i as int));
            assert(all_lines.subrange(1, i + 1).last() == all_lines[i as int]);
        }
        if line.len() >= 3 {
            if has_at(line, "?? ", 0) {
                let ln = line.len();
                let tail = subrange_chars(line, 3, ln);
                proof {
                    assert(tail@ =~= spec_skip_clamped(line@, 3));
                }
                let rel = trim_chars(&tail);
                upsert_status(
                    &mut file_statuses,
                    string_from_chars(&rel),
                    GitFileStatus::Untracked,
                );
            } else if has_at(line, "!! ", 0) {
                let ln = line.len();
                let tail = subrange_chars(line, 3, ln);
                proof {
                    assert(tail@ =~= spec_skip_clamped(line@, 3));
                }
                let rel = trim_chars(&tail);
                upsert_status(
                    &mut file_statuses,
                    string_from_chars(&rel),
                    GitFileStatus::Ignored,
                );
            } else {
                match classify_file_status(line[0], line[1]) {
                    None => {},
                    Some(st) => {
                        let rel = parse_path_chars(line);
                        if rel.unicode_len() != 0 {
                            upsert_status(&mut file_statuses, rel, st);
                        }
                    },
                }
            }
        }
        i = i + 1;
    }
    proof {
        assert(all_lines.subrange(1, n as int) =~= all_lines.drop_first());
    }
    Some(GitRepoStatus { branch, repo_root, file_statuses })
}

} // verus!
