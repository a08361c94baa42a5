//! Directory listings: the path model, hidden-entry visibility, and the
//! deterministic listing order (directories first, then case-insensitive by
//! name, ties broken by exact character order).
use vstd::prelude::*;

use crate::node::NodeType;
use crate::node::TreeNode;
use crate::text::chars_of;
use crate::text::string_from_chars;

verus! {

/// A name is hidden when it starts with a dot.
pub open spec fn spec_is_hidden(name: Seq<char>) -> bool {
    name.len() > 0 && name[0] == '.'
}

/// Whether `name` names a hidden entry.
pub fn is_hidden_name(name: &str) -> (r: bool)
    ensures
        r == spec_is_hidden(name@),
{
    if s_len_zero(name) {
        false
    } else {
        name.get_char(0) == '.'
    }
}

/// Whether `s` is empty.
fn s_len_zero(s: &str) -> (r: bool)
    ensures
        r == (s@.len() == 0),
{
    s.unicode_len() == 0
}

/// `s` with every trailing slash removed.
pub open spec fn spec_trim_slashes(s: Seq<char>) -> Seq<char>
    decreases s.len(),
{
    if s.len() > 0 && s.last() == '/' {
        spec_trim_slashes(s.drop_last())
    } else {
        s
    }
}

/// The index of the last slash of `s`, if s holds one.
pub open spec fn spec_last_slash(s: Seq<char>) -> Option<int>
    decreases s.len(),
{
    if s.len() == 0 {
        None
    } else if s.last() == '/' {
        Some(s.len() - 1)
    } else {
        spec_last_slash(s.drop_last())
    }
}

/// The parent of a path, under this crate's textual path model: trailing
/// slashes are ignored; a path with no remaining characters has no parent;
/// a bare name has the empty parent; otherwise the text before the last
/// slash, itself stripped of trailing slashes, or the root when nothing
/// remains before it.
pub open spec fn spec_parent_path(s: Seq<char>) -> Option<Seq<char>> {
    let t = spec_trim_slashes(s);
    if t.len() == 0 {
        None
    } else {
        match spec_last_slash(t) {
            None => Some(Seq::<char>::empty()),
            Some(i) => {
                let p = spec_trim_slashes(t.subrange(0, i));
                if p.len() == 0 {
                    Some(seq!['/'])
                } else {
                    Some(p)
                }
            },
        }
    }
}

/// The number of characters of `s` that remain once trailing slashes go.
fn trimmed_len(cs: &Vec<char>, upto: usize) -> (r: usize)
    requires
        upto <= cs@.len(),
    ensures
        r <= upto,
        cs@.take(r as int) == spec_trim_slashes(cs@.take(upto as int)),
{
    let mut end = upto;
    while end > 0 && cs[end - 1] == '/'
        invariant
            end <= upto <= cs@.len(),
            spec_trim_slashes(cs@.take(upto as int)) == spec_trim_slashes(cs@.take(end as int)),
        decreases end,
    {
        proof {
            assert(cs@.take(end as int).drop_last() =~= cs@.take(end - 1));
        }
        end = end - 1;
    }
    proof {
        if end > 0 {
            assert(cs@.take(end as int).last() == cs@[end - 1]);
        }
    }
    end
}

/// The parent directory of `path`, or `None` at the filesystem root.
pub fn parent_path(path: &str) -> (r: Option<String>)
    ensures
        match r {
            Some(p) => spec_parent_path(path@) == Some(p@),
            None => spec_parent_path(path@) is None,
        },
{
    let cs = chars_of(path);
    let end = trimmed_len(&cs, cs.len());
    proof {
        assert(cs@.take(cs@.len() as int) =~= cs@);
    }
    if end == 0 {
        return None;
    }
    let mut j = end;
    while j > 0 && cs[j - 1] != '/'
        invariant
            j <= end <= cs@.len(),
            spec_last_slash(cs@.take(end as int)) == spec_last_slash(cs@.take(j as int)),
        decreases j,
    {
        proof {
            assert(cs@.take(j as int).drop_last() =~= cs@.take(j - 1));
        }
        j = j - 1;
    }
    if j == 0 {
        proof {
            assert(spec_last_slash(cs@.take(end as int)) is None);
        }
        return Some(String::new());
    }
    proof {
        assert(cs@.take(j as int).last() == cs@[j - 1]);
        assert(spec_last_slash(cs@.take(end as int)) == Some(j - 1));
        assert(cs@.take(end as int).subrange(0, j - 1) =~= cs@.take(j - 1));
    }
    let end2 = trimmed_len(&cs, j - 1);
    if end2 == 0 {
        let root = chars_of("/");
        proof {
            reveal_strlit("/");
            assert(root@ =~= seq!['/']);
        }
        return Some(string_from_chars(&root));
    }
    let parent = crate::text::subrange_chars(&cs, 0, end2);
    proof {
        assert(parent@ =~= cs@.take(end2 as int));
    }
    Some(string_from_chars(&parent))
}

/// Whether `path` is the filesystem root: a path with no parent.
pub fn is_filesystem_root(path: &str) -> (r: bool)
    ensures
        r == (spec_parent_path(path@) is None),
{
    let cs = chars_of(path);
    let end = trimmed_len(&cs, cs.len());
    proof {
        assert(cs@.take(cs@.len() as int) =~= cs@);
    }
    end == 0
}

/// Directories sort before everything else.
pub open spec fn spec_group(t: NodeType) -> int {
    if t is Directory {
        0
    } else {
        1
    }
}

/// The character code used for case-insensitive comparison: an upper-case
/// letter counts as its lower-case form.
pub open spec fn spec_lower_code(c: char) -> int {
    if 'A' <= c && c <= 'Z' {
        c as int + 32
    } else {
        c as int
    }
}

/// The case-folded codes of a name.
pub open spec fn spec_lower(s: Seq<char>) -> Seq<int> {
    s.map_values(|c: char| spec_lower_code(c))
}

/// The exact codes of a name.
pub open spec fn spec_codes(s: Seq<char>) -> Seq<int> {
    s.map_values(|c: char| c as int)
}

/// Lexicographic three-way comparison of two code sequences: negative when
/// `a` comes first, zero when they are equal, positive when `b` comes first.
pub open spec fn spec_seq_cmp(a: Seq<int>, b: Seq<int>) -> int
    decreases a.len(),
{
    if a.len() == 0 && b.len() == 0 {
        0
    } else if a.len() == 0 {
        -1
    } else if b.len() == 0 {
        1
    } else if a[0] < b[0] {
        -1
    } else if a[0] > b[0] {
        1
    } else {
        spec_seq_cmp(a.drop_first(), b.drop_first())
    }
}

/// The listing order: directories before non-directories; within a group,
/// case-insensitive name order; ties broken by exact character order.
pub open spec fn spec_entry_cmp(a: TreeNode, b: TreeNode) -> int {
    if spec_group(a.node_type) < spec_group(b.node_type) {
        -1
    } else if spec_group(a.node_type) > spec_group(b.node_type) {
        1
    } else {
        let ci = spec_seq_cmp(spec_lower(a.name@), spec_lower(b.name@));
        if ci != 0 {
            ci
        } else {
            spec_seq_cmp(spec_codes(a.name@), spec_codes(b.name@))
        }
    }
}

/// The integer reading of an ordering value.
pub open spec fn spec_ord_int(o: core::cmp::Ordering) -> int {
    match o {
        core::cmp::Ordering::Less => -1,
        core::cmp::Ordering::Equal => 0,
        core::cmp::Ordering::Greater => 1,
    }
}

/// Three-way comparison of two names under a code mapping: case-folded when
/// `folded`, exact otherwise.
pub fn cmp_names(a: &str, b: &str, folded: bool) -> (r: core::cmp::Ordering)
    ensures
        folded ==> spec_ord_int(r) == spec_seq_cmp(spec_lower(a@), spec_lower(b@)),
        !folded ==> spec_ord_int(r) == spec_seq_cmp(spec_codes(a@), spec_codes(b@)),
{
    let ac = chars_of(a);
    let bc = chars_of(b);
    let ghost am = if folded {
        spec_lower(a@)
    } else {
        spec_codes(a@)
    };
    let ghost bm = if folded {
        spec_lower(b@)
    } else {
        spec_codes(b@)
    };
    let alen = ac.len();
    let blen = bc.len();
    proof {
        assert(am.skip(0) =~= am);
        assert(bm.skip(0) =~= bm);
    }
    let mut i: usize = 0;
    while i < alen && i < blen
        invariant
            i <= alen,
            i <= blen,
            alen == ac@.len(),
            blen == bc@.len(),
            ac@ == a@,
            bc@ == b@,
            am == (if folded {
                spec_lower(a@)
            } else {
                spec_codes(a@)
            }),
            bm == (if folded {
                spec_lower(b@)
            } else {
                spec_codes(b@)
            }),
            spec_seq_cmp(am, bm) == spec_seq_cmp(am.skip(i as int), bm.skip(i as int)),
        decreases alen - i,
    {
        let ca = code_of(ac[i], folded);
        let cb = code_of(bc[i], folded);
        proof {
            assert(am.skip(i as int)[0] == am[i as int]);
            assert(bm.skip(i as int)[0] == bm[i as int]);
        }
        if ca < cb {
            return core::cmp::Ordering::Less;
        }
        if ca > cb {
            return core::cmp::Ordering::Greater;
        }
        proof {
            assert(am.skip(i as int).drop_first() =~= am.skip(i + 1));
            assert(bm.skip(i as int).drop_first() =~= bm.skip(i + 1));
        }
        i = i + 1;
    }
    proof {
        assert(am.skip(i as int).len() == alen - i);
        assert(bm.skip(i as int).len() == blen - i);
    }
    if alen == blen {
        core::cmp::Ordering::Equal
    } else if alen < blen {
        core::cmp::Ordering::Less
    } else {
        core::cmp::Ordering::Greater
    }
}

/// The comparison code of one character.
fn code_of(c: char, folded: bool) -> (r: u32)
    ensures
        folded ==> r == spec_lower_code(c),
        !folded ==> r == c as int,
{
    if folded && 'A' <= c && c <= 'Z' {
        (c as u32) + 32
    } else {
        c as u32
    }
}

/// The listing order of two entries: directories first, then names
/// case-insensitively, ties by exact character order.
pub fn directory_first_cmp(a: &TreeNode, b: &TreeNode) -> (r: core::cmp::Ordering)
    ensures
        spec_ord_int(r) == spec_entry_cmp(*a, *b),
{
    let ga: u8 = match a.node_type {
        NodeType::Directory => 0,
        _ => 1,
    };
    let gb: u8 = match b.node_type {
        NodeType::Directory => 0,
        _ => 1,
    };
    if ga < gb {
        return core::cmp::Ordering::Less;
    }
    if ga > gb {
        return core::cmp::Ordering::Greater;
    }
    let ci = cmp_names(a.name.as_str(), b.name.as_str(), true);
    if !matches!(ci, core::cmp::Ordering::Equal) {
        return ci;
    }
    cmp_names(a.name.as_str(), b.name.as_str(), false)
}

/// Comparison yields one of the three order values.
proof fn lemma_seq_cmp_range(a: Seq<int>, b: Seq<int>)
    ensures
        -1 <= spec_seq_cmp(a, b) <= 1,
    decreases a.len(),
{
    if a.len() > 0 && b.len() > 0 && a[0] == b[0] {
        lemma_seq_cmp_range(a.drop_first(), b.drop_first());
    }
}

/// Two code sequences that compare equal are equal.
proof fn lemma_seq_cmp_zero(a: Seq<int>, b: Seq<int>)
    requires
        spec_seq_cmp(a, b) == 0,
    ensures
        a == b,
    decreases a.len(),
{
    lemma_seq_cmp_range(a, b);
    if a.len() == 0 && b.len() == 0 {
        assert(a =~= b);
    } else if a.len() > 0 && b.len() > 0 {
        lemma_seq_cmp_range(a.drop_first(), b.drop_first());
        lemma_seq_cmp_zero(a.drop_first(), b.drop_first());
        assert(a.len() == b.len());
        assert forall|i: int| 0 <= i < a.len() implies a[i] == b[i] by {
            if i > 0 {
                assert(a[i] == a.drop_first()[i - 1]);
                assert(b[i] == b.drop_first()[i - 1]);
            }
        }
        assert(a =~= b);
    }
}

/// A sequence compares equal to itself.
proof fn lemma_seq_cmp_refl(a: Seq<int>)
    ensures
        spec_seq_cmp(a, a) == 0,
    decreases a.len(),
{
    if a.len() > 0 {
        lemma_seq_cmp_refl(a.drop_first());
    }
}

/// Two code sequences compare equal exactly when they are equal.
pub proof fn lemma_seq_cmp_eq_iff(a: Seq<int>, b: Seq<int>)
    ensures
        (spec_seq_cmp(a, b) == 0) <==> (a == b),
{
    if spec_seq_cmp(a, b) == 0 {
        lemma_seq_cmp_zero(a, b);
    }
    if a == b {
        lemma_seq_cmp_refl(a);
    }
}

/// Swapping the operands flips the sign of the comparison.
proof fn lemma_seq_cmp_antisym(a: Seq<int>, b: Seq<int>)
    ensures
        spec_seq_cmp(b, a) == -spec_seq_cmp(a, b),
    decreases a.len(),
{
    if a.len() > 0 && b.len() > 0 && a[0] == b[0] {
        lemma_seq_cmp_antisym(a.drop_first(), b.drop_first());
    }
}

/// The comparison order is transitive.
proof fn lemma_seq_cmp_trans(a: Seq<int>, b: Seq<int>, c: Seq<int>)
    requires
        spec_seq_cmp(a, b) <= 0,
        spec_seq_cmp(b, c) <= 0,
    ensures
        spec_seq_cmp(a, c) <= 0,
    decreases a.len(),
{
    if a.len() == 0 {
    } else {
        assert(b.len() > 0);
        assert(c.len() > 0);
        if a[0] == c[0] {
            assert(a[0] <= b[0] && b[0] <= c[0]);
            lemma_seq_cmp_trans(a.drop_first(), b.drop_first(), c.drop_first());
        }
    }
}

/// Swapping the operands flips the sign of the entry comparison.
pub proof fn lemma_entry_cmp_antisym(a: TreeNode, b: TreeNode)
    ensures
        spec_entry_cmp(b, a) == -spec_entry_cmp(a, b),
{
    lemma_seq_cmp_antisym(spec_lower(a.name@), spec_lower(b.name@));
    lemma_seq_cmp_antisym(spec_codes(a.name@), spec_codes(b.name@));
}

/// The listing order is transitive.
pub proof fn lemma_entry_cmp_trans(a: TreeNode, b: TreeNode, c: TreeNode)
    requires
        spec_entry_cmp(a, b) <= 0,
        spec_entry_cmp(b, c) <= 0,
    ensures
        spec_entry_cmp(a, c) <= 0,
{
    let la = spec_lower(a.name@);
    let lb = spec_lower(b.name@);
    let lc = spec_lower(c.name@);
    let ea = spec_codes(a.name@);
    let eb = spec_codes(b.name@);
    let ec = spec_codes(c.name@);
    lemma_seq_cmp_range(la, lb);
    lemma_seq_cmp_range(lb, lc);
    lemma_seq_cmp_range(la, lc);
    lemma_seq_cmp_range(ea, eb);
    lemma_seq_cmp_range(eb, ec);
    if spec_group(a.node_type) <= spec_group(b.node_type) && spec_group(b.node_type) <= spec_group(
        c.node_type,
    ) && spec_group(a.node_type) == spec_group(c.node_type) {
        // All three entries are in one group; compare by names.
        assert(spec_group(a.node_type) == spec_group(b.node_type));
        if spec_seq_cmp(la, lb) == 0 {
            lemma_seq_cmp_zero(la, lb);
        }
        if spec_seq_cmp(lb, lc) == 0 {
            lemma_seq_cmp_zero(lb, lc);
        }
        if spec_seq_cmp(la, lb) == 0 && spec_seq_cmp(lb, lc) == 0 {
            lemma_seq_cmp_trans(ea, eb, ec);
        } else {
            lemma_seq_cmp_trans(la, lb, lc);
            if spec_seq_cmp(la, lc) == 0 {
                lemma_seq_cmp_zero(la, lc);
                lemma_seq_cmp_antisym(la, lb);
            }
        }
    }
}

/// `a` comes no later than `b` in the listing order.
pub open spec fn spec_entry_le(a: TreeNode, b: TreeNode) -> bool {
    spec_entry_cmp(a, b) <= 0
}

/// The whole sequence stands in listing order.
pub open spec fn spec_sorted_entries(s: Seq<TreeNode>) -> bool {
    forall|i: int, j: int| 0 <= i < j < s.len() ==> spec_entry_le(s[i], s[j])
}

/// `x` inserted into `s` after every entry that compares no later than it.
pub open spec fn spec_insert_entry(x: TreeNode, s: Seq<TreeNode>) -> Seq<TreeNode>
    decreases s.len(),
{
    if s.len() == 0 {
        seq![x]
    } else if spec_entry_cmp(s.first(), x) <= 0 {
        seq![s.first()] + spec_insert_entry(x, s.drop_first())
    } else {
        seq![x] + s
    }
}

/// The listing order of a sequence of entries: a stable insertion sort.
pub open spec fn spec_sort_entries(s: Seq<TreeNode>) -> Seq<TreeNode>
    decreases s.len(),
{
    if s.len() == 0 {
        s
    } else {
        spec_insert_entry(s.last(), spec_sort_entries(s.drop_last()))
    }
}

/// Inserting adds exactly the inserted entry to the contents.
proof fn lemma_insert_entry_multiset(x: TreeNode, s: Seq<TreeNode>)
    ensures
        spec_insert_entry(x, s).to_multiset() =~= s.to_multiset().insert(x),
        spec_insert_entry(x, s).len() == s.len() + 1,
    decreases s.len(),
{
    broadcast use vstd::multiset::group_multiset_axioms;

    if s.len() == 0 {
        assert(s =~= Seq::<TreeNode>::empty());
        assert(seq![x] =~= Seq::<TreeNode>::empty().push(x));
        Seq::<TreeNode>::empty().to_multiset_ensures();
        assert(Seq::<TreeNode>::empty().push(x).to_multiset() =~= Seq::<
            TreeNode,
        >::empty().to_multiset().insert(x));
    } else if spec_entry_cmp(s.first(), x) <= 0 {
        let rest = s.drop_first();
        lemma_insert_entry_multiset(x, rest);
        vstd::seq_lib::lemma_multiset_commutative(seq![s.first()], spec_insert_entry(x, rest));
        vstd::seq_lib::lemma_multiset_commutative(seq![s.first()], rest);
        assert(s =~= seq![s.first()] + rest);
        assert(spec_insert_entry(x, s).to_multiset() =~= s.to_multiset().insert(x));
    } else {
        vstd::seq_lib::lemma_multiset_commutative(seq![x], s);
        assert(seq![x] =~= Seq::<TreeNode>::empty().push(x));
        Seq::<TreeNode>::empty().to_multiset_ensures();
        assert(Seq::<TreeNode>::empty().push(x).to_multiset() =~= Seq::<
            TreeNode,
        >::empty().to_multiset().insert(x));
        assert(spec_insert_entry(x, s).to_multiset() =~= s.to_multiset().insert(x));
    }
}

/// Every entry of the inserted sequence is the new entry or one of the old.
proof fn lemma_insert_entry_membership(x: TreeNode, s: Seq<TreeNode>)
    ensures
        forall|k: int|
            0 <= k < spec_insert_entry(x, s).len() ==> (#[trigger] spec_insert_entry(x, s)[k] == x
                || s.contains(spec_insert_entry(x, s)[k])),
    decreases s.len(),
{
    lemma_insert_entry_multiset(x, s);
    if s.len() == 0 {
    } else if spec_entry_cmp(s.first(), x) <= 0 {
        lemma_insert_entry_membership(x, s.drop_first());
        assert forall|k: int| 0 <= k < spec_insert_entry(x, s).len() implies (
        #[trigger] spec_insert_entry(x, s)[k] == x || s.contains(spec_insert_entry(x, s)[k])) by {
            if k == 0 {
                assert(s.contains(s.first())) by {
                    assert(s[0] == s.first());
                }
            } else {
                let e = spec_insert_entry(x, s.drop_first())[k - 1];
                assert(spec_insert_entry(x, s)[k] == e);
                if e != x {
                    assert(s.drop_first().contains(e));
                    let i = choose|i: int| 0 <= i < s.drop_first().len() && s.drop_first()[i] == e;
                    assert(s[i + 1] == e);
                }
            }
        }
    }
}

/// Inserting into a sorted sequence keeps it sorted.
proof fn lemma_insert_entry_sorted(x: TreeNode, s: Seq<TreeNode>)
    requires
        spec_sorted_entries(s),
    ensures
        spec_sorted_entries(spec_insert_entry(x, s)),
    decreases s.len(),
{
    if s.len() == 0 {
    } else if spec_entry_cmp(s.first(), x) <= 0 {
        assert(spec_sorted_entries(s.drop_first()));
        lemma_insert_entry_sorted(x, s.drop_first());
        lemma_insert_entry_membership(x, s.drop_first());
        lemma_insert_entry_multiset(x, s.drop_first());
        let r = spec_insert_entry(x, s);
        let rr = spec_insert_entry(x, s.drop_first());
        assert forall|i: int, j: int| 0 <= i < j < r.len() implies spec_entry_le(r[i], r[j]) by {
            if i == 0 {
                let e = rr[j - 1];
                assert(r[j] == e);
                if e == x {
                } else {
                    let k = choose|k: int|
                        0 <= k < s.drop_first().len() && s.drop_first()[k] == e;
                    assert(s[k + 1] == e);
                    assert(spec_entry_le(s[0], s[k + 1]));
                }
            } else {
                assert(r[i] == rr[i - 1] && r[j] == rr[j - 1]);
                assert(spec_entry_le(rr[i - 1], rr[j - 1]));
            }
        }
    } else {
        lemma_entry_cmp_antisym(s.first(), x);
        let r = spec_insert_entry(x, s);
        assert forall|i: int, j: int| 0 <= i < j < r.len() implies spec_entry_le(r[i], r[j]) by {
            if i == 0 {
                assert(r[0] == x && r[j] == s[j - 1]);
                if j == 1 {
                    assert(s[0] == s.first());
                } else {
                    assert(spec_entry_le(s[0], s[j - 1]));
                    lemma_entry_cmp_trans(x, s[0], s[j - 1]);
                }
            } else {
                assert(r[i] == s[i - 1] && r[j] == s[j - 1]);
            }
        }
    }
}

/// The listing order law: sorting yields a sequence that stands in listing
/// order and holds exactly the entries it was given, whatever their initial
/// arrangement; as a function of the contents it is deterministic.
pub proof fn lemma_sort_entries_ensures(s: Seq<TreeNode>)
    ensures
        spec_sorted_entries(spec_sort_entries(s)),
        spec_sort_entries(s).to_multiset() == s.to_multiset(),
        spec_sort_entries(s).len() == s.len(),
    decreases s.len(),
{
    broadcast use vstd::multiset::group_multiset_axioms;

    if s.len() == 0 {
    } else {
        lemma_sort_entries_ensures(s.drop_last());
        lemma_insert_entry_sorted(s.last(), spec_sort_entries(s.drop_last()));
        lemma_insert_entry_multiset(s.last(), spec_sort_entries(s.drop_last()));
        s.to_multiset_ensures();
        s.drop_last().to_multiset_ensures();
        assert(s =~= s.drop_last().push(s.last()));
        assert(s.to_multiset() =~= s.drop_last().to_multiset().insert(s.last()));
    }
}

/// Where the scan stopped is where the spec inserts.
proof fn lemma_insert_entry_at(x: TreeNode, s: Seq<TreeNode>, j: int)
    requires
        0 <= j <= s.len(),
        forall|k: int| 0 <= k < j ==> spec_entry_cmp(#[trigger] s[k], x) <= 0,
        j < s.len() ==> spec_entry_cmp(s[j], x) > 0,
    ensures
        spec_insert_entry(x, s) == s.insert(j, x),
    decreases j,
{
    if j == 0 {
        if s.len() == 0 {
            assert(spec_insert_entry(x, s) =~= s.insert(0, x));
        } else {
            assert(spec_insert_entry(x, s) =~= seq![x] + s);
            assert(seq![x] + s =~= s.insert(0, x));
        }
    } else {
        assert(spec_entry_cmp(s[0], x) <= 0);
        lemma_insert_entry_at(x, s.drop_first(), j - 1);
        assert(seq![s.first()] + s.drop_first().insert(j - 1, x) =~= s.insert(j, x));
    }
}

/// Insert `x` into the sorted vector `v`, after every entry that compares no
/// later than it.
fn insert_entry(v: &mut Vec<TreeNode>, x: TreeNode)
    ensures
        final(v)@ == spec_insert_entry(x, old(v)@),
{
    let n = v.len();
    let mut j: usize = 0;
    while j < n && matches!(
        directory_first_cmp(&v[j], &x),
        core::cmp::Ordering::Less | core::cmp::Ordering::Equal,
    )
        invariant
            j <= n,
            n == v@.len(),
            forall|k: int| 0 <= k < j ==> spec_entry_cmp(#[trigger] v@[k], x) <= 0,
        decreases n - j,
    {
        j = j + 1;
    }
    proof {
        lemma_insert_entry_at(x, v@, j as int);
    }
    v.insert(j, x);
}

/// The entries of `v` arranged in listing order.
pub fn sort_entries(v: Vec<TreeNode>) -> (r: Vec<TreeNode>)
    ensures
        r@ == spec_sort_entries(v@),
{
    let mut r: Vec<TreeNode> = Vec::new();
    let n = v.len();
    let mut i: usize = 0;
    while i < n
        invariant
            i <= n,
            n == v@.len(),
            r@ == spec_sort_entries(v@.take(i as int)),
        decreases n - i,
    {
        let x = clone_node(&v[i]);
        insert_entry(&mut r, x);
        proof {
            assert(v@.take(i + 1).drop_last() =~= v@.take(i as int));
            assert(v@.take(i + 1).last() == v@[i as int]);
        }
        i = i + 1;
    }
    proof {
        assert(v@.take(n as int) =~= v@);
    }
    r
}

/// A field-for-field copy of one entry.
fn clone_node(n: &TreeNode) -> (r: TreeNode)
    ensures
        r == *n,
{
    let r = TreeNode {
        path: n.path.clone(),
        name: n.name.clone(),
        node_type: clone_node_type(&n.node_type),
        depth: n.depth,
        expanded: n.expanded,
        readable: n.readable,
        children_loaded: n.children_loaded,
    };
    proof {
        assert(r.path@ == n.path@);
        assert(r == *n) by {
            assert(r.path == n.path);
            assert(r.name == n.name);
        }
    }
    r
}

/// A copy of one entry kind.
fn clone_node_type(t: &NodeType) -> (r: NodeType)
    ensures
        r == *t,
{
    match t {
        NodeType::File => NodeType::File,
        NodeType::Directory => NodeType::Directory,
        NodeType::Symlink => NodeType::Symlink,
        NodeType::Unknown => NodeType::Unknown,
    }
}

/// The entries of `s` that are visible: all of them when `show_hidden`, else
/// those whose name does not start with a dot.
pub open spec fn spec_visible(s: Seq<TreeNode>, show_hidden: bool) -> Seq<TreeNode>
    decreases s.len(),
{
    if s.len() == 0 {
        s
    } else {
        let rest = spec_visible(s.drop_last(), show_hidden);
        if show_hidden || !spec_is_hidden(s.last().name@) {
            rest.push(s.last())
        } else {
            rest
        }
    }
}

/// What a raw enumeration turns into: the visible entries, capped at
/// `max_entries`, in listing order.
pub open spec fn spec_listing(s: Seq<TreeNode>, max_entries: int, show_hidden: bool) -> Seq<
    TreeNode,
> {
    let vis = spec_visible(s, show_hidden);
    let capped = if vis.len() <= max_entries {
        vis
    } else {
        vis.take(max_entries)
    };
    spec_sort_entries(capped)
}

/// Turn one raw directory enumeration into the visible listing: hidden
/// entries are dropped unless shown, at most `max_entries` of the remaining
/// entries are kept, and the result stands in listing order.
pub fn list_current_directory_with_visibility(
    raw: Vec<TreeNode>,
    max_entries: usize,
    show_hidden: bool,
) -> (r: Vec<TreeNode>)
    ensures
        r@ == spec_listing(raw@, max_entries as int, show_hidden),
        r@.len() <= max_entries,
        spec_sorted_entries(r@),
{
    let n = raw.len();
    let mut vis: Vec<TreeNode> = Vec::new();
    let mut i: usize = 0;
    while i < n
        invariant
            i <= n,
            n == raw@.len(),
            vis@ == spec_visible(raw@.take(i as int), show_hidden),
            vis@.len() <= i,
        decreases n - i,
    {
        let node = &raw[i];
        if show_hidden || !is_hidden_name(node.name.as_str()) {
            vis.push(clone_node(node));
        }
        proof {
            assert(raw@.take(i + 1).drop_last() =~= raw@.take(i as int));
            assert(raw@.take(i + 1).last() == raw@[i as int]);
        }
        i = i + 1;
    }
    proof {
        assert(raw@.take(n as int) =~= raw@);
    }
    if vis.len() > max_entries {
        vis.truncate(max_entries);
    }
    proof {
        lemma_sort_entries_ensures(vis@);
        let v0 = spec_visible(raw@, show_hidden);
        if v0.len() > max_entries {
            assert(vis@ =~= v0.take(max_entries as int));
        }
    }
    sort_entries(vis)
}

/// The visible listing with hidden entries shown.
pub fn list_current_directory(raw: Vec<TreeNode>, max_entries: usize) -> (r: Vec<TreeNode>)
    ensures
        r@ == spec_listing(raw@, max_entries as int, true),
        spec_sorted_entries(r@),
{
    list_current_directory_with_visibility(raw, max_entries, true)
}

} // verus!
