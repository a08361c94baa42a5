//! Character-level text helpers.
//!
//! The parsers and formatters of this crate work on vectors of characters,
//! whose view is the same `Seq<char>` as the view of the strings they came
//! from; these helpers move between the two shapes.
use vstd::prelude::*;

verus! {

/// The characters of `s`, in order.
pub fn chars_of(s: &str) -> (r: Vec<char>)
    ensures
        r@ == s@,
{
    let n = s.unicode_len();
    let mut r: Vec<char> = Vec::new();
    let mut i: usize = 0;
    while i < n
        invariant
            i <= n,
            n == s@.len(),
            r@ == s@.take(i as int),
        decreases n - i,
    {
        r.push(s.get_char(i));
        proof {
            assert(r@ =~= s@.take(i + 1));
        }
        i = i + 1;
    }
    proof {
        assert(s@.take(n as int) =~= s@);
    }
    r
}

/// Relies on `String: FromIterator<char>`: collecting characters yields the
/// string of exactly those characters, in order.
#[verifier::external_body]
pub fn string_from_chars(v: &Vec<char>) -> (r: String)
    ensures
        r@ == v@,
{
    v.iter().copied().collect()
}

/// The characters of `v` from `from` (inclusive) to `to` (exclusive).
pub fn subrange_chars(v: &Vec<char>, from: usize, to: usize) -> (r: Vec<char>)
    requires
        from <= to <= v@.len(),
    ensures
        r@ == v@.subrange(from as int, to as int),
{
    let mut r: Vec<char> = Vec::new();
    let mut i: usize = from;
    while i < to
        invariant
            from <= i <= to <= v@.len(),
            r@ == v@.subrange(from as int, i as int),
        decreases to - i,
    {
        r.push(v[i]);
        proof {
            assert(r@ =~= v@.subrange(from as int, i + 1));
        }
        i = i + 1;
    }
    r
}

/// Whether two character vectors hold the same characters.
pub fn chars_eq(a: &Vec<char>, b: &Vec<char>) -> (r: bool)
    ensures
        r == (a@ == b@),
{
    if a.len() != b.len() {
        proof {
            assert(a@ != b@);
        }
        return false;
    }
    let mut i: usize = 0;
    while i < a.len()
        invariant
            i <= a@.len(),
            a@.len() == b@.len(),
            forall|j: int| 0 <= j < i ==> a@[j] == b@[j],
        decreases a@.len() - i,
    {
        if a[i] != b[i] {
            proof {
                assert(a@ != b@);
            }
            return false;
        }
        i = i + 1;
    }
    proof {
        assert(a@ =~= b@);
    }
    true
}

/// Whether `v` holds `p` starting at position `at`.
pub open spec fn spec_has_at(v: Seq<char>, p: Seq<char>, at: int) -> bool {
    0 <= at && at + p.len() <= v.len() && v.subrange(at, at + p.len()) == p
}

/// Whether the characters of `p` stand in `v` at position `at`.
pub fn has_at(v: &Vec<char>, p: &str, at: usize) -> (r: bool)
    ensures
        r == spec_has_at(v@, p@, at as int),
{
    let pc = chars_of(p);
    let vlen = v.len();
    if at > vlen || pc.len() > vlen - at {
        proof {
            assert(!spec_has_at(v@, p@, at as int));
        }
        return false;
    }
    let mut i: usize = 0;
    while i < pc.len()
        invariant
            i <= pc@.len(),
            at + pc@.len() <= vlen,
            vlen == v@.len(),
            pc@ == p@,
            forall|j: int| 0 <= j < i ==> v@[at + j] == pc@[j],
        decreases pc@.len() - i,
    {
        if v[at + i] != pc[i] {
            proof {
                assert(v@.subrange(at as int, at + pc@.len())[i as int] != pc@[i as int]);
            }
            return false;
        }
        i = i + 1;
    }
    proof {
        assert(v@.subrange(at as int, at + pc@.len()) =~= pc@);
    }
    true
}

/// The whitespace characters that trimming removes.
pub open spec fn spec_is_space(c: char) -> bool {
    c == ' ' || c == '\t' || c == '\r' || c == '\n'
}

/// Whether `c` is one of the whitespace characters that trimming removes.
pub fn is_space(c: char) -> (r: bool)
    ensures
        r == spec_is_space(c),
{
    c == ' ' || c == '\t' || c == '\r' || c == '\n'
}

/// `s` without leading whitespace.
pub open spec fn spec_trim_start(s: Seq<char>) -> Seq<char>
    decreases s.len(),
{
    if s.len() > 0 && spec_is_space(s[0]) {
        spec_trim_start(s.drop_first())
    } else {
        s
    }
}

/// `s` without trailing whitespace.
pub open spec fn spec_trim_end(s: Seq<char>) -> Seq<char>
    decreases s.len(),
{
    if s.len() > 0 && spec_is_space(s.last()) {
        spec_trim_end(s.drop_last())
    } else {
        s
    }
}

/// `s` without leading or trailing whitespace.
pub open spec fn spec_trim(s: Seq<char>) -> Seq<char> {
    spec_trim_end(spec_trim_start(s))
}

/// The characters of `v`, without leading or trailing whitespace.
pub fn trim_chars(v: &Vec<char>) -> (r: Vec<char>)
    ensures
        r@ == spec_trim(v@),
{
    let n = v.len();
    proof {
        assert(v@.skip(0) =~= v@);
    }
    let mut lo: usize = 0;
    while lo < n && is_space(v[lo])
        invariant
            lo <= n,
            n == v@.len(),
            spec_trim_start(v@) == spec_trim_start(v@.skip(lo as int)),
        decreases n - lo,
    {
        proof {
            assert(v@.skip(lo as int)[0] == v@[lo as int]);
            assert(v@.skip(lo as int).drop_first() =~= v@.skip(lo + 1));
        }
        lo = lo + 1;
    }
    proof {
        if lo < n {
            assert(v@.skip(lo as int)[0] == v@[lo as int]);
        }
        assert(spec_trim_start(v@) == v@.skip(lo as int));
    }
    let mut hi: usize = n;
    while hi > lo && is_space(v[hi - 1])
        invariant
            lo <= hi <= n,
            n == v@.len(),
            spec_trim_start(v@) == v@.skip(lo as int),
            spec_trim_end(v@.skip(lo as int)) == spec_trim_end(
                v@.subrange(lo as int, hi as int),
            ),
        decreases hi,
    {
        proof {
            assert(v@.subrange(lo as int, hi as int).last() == v@[hi - 1]);
            assert(v@.subrange(lo as int, hi as int).drop_last() =~= v@.subrange(
                lo as int,
                hi - 1,
            ));
        }
        hi = hi - 1;
    }
    proof {
        assert(v@.skip(lo as int) =~= v@.subrange(lo as int, n as int));
        if hi > lo {
            assert(v@.subrange(lo as int, hi as int).last() == v@[hi - 1]);
        }
        assert(spec_trim_end(v@.subrange(lo as int, hi as int)) == v@.subrange(
            lo as int,
            hi as int,
        ));
    }
    subrange_chars(v, lo, hi)
}

/// The lowest position at or after `from` where `p` stands in `v`; a
/// negative `from` finds nothing.
pub open spec fn spec_find_from(v: Seq<char>, p: Seq<char>, from: int) -> Option<int>
    decreases v.len() + 1 - from,
{
    if from < 0 || from + p.len() > v.len() {
        None
    } else if spec_has_at(v, p, from) {
        Some(from)
    } else {
        spec_find_from(v, p, from + 1)
    }
}

/// Find the first occurrence of `p` in `v` at or after `from`.
pub fn find_from(v: &Vec<char>, p: &str, from: usize) -> (r: Option<usize>)
    ensures
        match r {
            Some(i) => Some(i as int) == spec_find_from(v@, p@, from as int),
            None => spec_find_from(v@, p@, from as int) is None,
        },
{
    let n = v.len();
    let mut i: usize = from;
    loop
        invariant
            from <= i,
            n == v@.len(),
            spec_find_from(v@, p@, from as int) == spec_find_from(v@, p@, i as int),
        decreases n + 1 - i,
    {
        if i > n {
            proof {
                assert(i + p@.len() > v@.len());
                assert(spec_find_from(v@, p@, i as int) is None);
            }
            return None;
        }
        if has_at(v, p, i) {
            return Some(i);
        }
        if i == n {
            proof {
                assert(spec_find_from(v@, p@, i + 1) is None);
                assert(spec_find_from(v@, p@, i as int) is None);
            }
            return None;
        }
        i = i + 1;
    }
}

/// The highest position, at or below `upto`, where `p` stands in `v`.
pub open spec fn spec_find_last_upto(v: Seq<char>, p: Seq<char>, upto: int) -> Option<int>
    decreases upto + 1,
{
    if upto < 0 {
        None
    } else if spec_has_at(v, p, upto) {
        Some(upto)
    } else {
        spec_find_last_upto(v, p, upto - 1)
    }
}

/// The highest position where `p` stands in `v`.
pub open spec fn spec_find_last(v: Seq<char>, p: Seq<char>) -> Option<int> {
    spec_find_last_upto(v, p, v.len() - p.len())
}

/// Find the last occurrence of `p` in `v`.
pub fn find_last(v: &Vec<char>, p: &str, p_len: usize) -> (r: Option<usize>)
    requires
        p_len == p@.len(),
    ensures
        match r {
            Some(i) => Some(i as int) == spec_find_last(v@, p@),
            None => spec_find_last(v@, p@) is None,
        },
{
    let n = v.len();
    if p_len > n {
        proof {
            assert(spec_find_last_upto(v@, p@, v@.len() - p@.len()) is None) by {
                lemma_find_last_none_below_zero(v@, p@, v@.len() - p@.len());
            }
        }
        return None;
    }
    let mut i: usize = n - p_len;
    loop
        invariant
            i <= n - p_len,
            n == v@.len(),
            p_len == p@.len(),
            p_len <= n,
            spec_find_last(v@, p@) == spec_find_last_upto(v@, p@, i as int),
        decreases i + 1,
    {
        if has_at(v, p, i) {
            return Some(i);
        }
        if i == 0 {
            proof {
                lemma_find_last_none_below_zero(v@, p@, -1);
            }
            return None;
        }
        i = i - 1;
    }
}

/// Below position zero nothing is found.
proof fn lemma_find_last_none_below_zero(v: Seq<char>, p: Seq<char>, upto: int)
    requires
        upto < 0,
    ensures
        spec_find_last_upto(v, p, upto) is None,
{
}

/// A successful search starts no earlier than where it began.
pub proof fn lemma_find_from_lower_bound(s: Seq<char>, p: Seq<char>, from: int)
    ensures
        spec_find_from(s, p, from) matches Some(j) ==> j >= from,
    decreases s.len() + 1 - from,
{
    if 0 <= from && from + p.len() <= s.len() && !spec_has_at(s, p, from) {
        lemma_find_from_lower_bound(s, p, from + 1);
    }
}

/// A successful search lands inside the text.
pub proof fn lemma_find_from_bounds(s: Seq<char>, p: Seq<char>, from: int, j: int)
    requires
        spec_find_from(s, p, from) == Some(j),
    ensures
        from <= j,
        j + p.len() <= s.len(),
        spec_has_at(s, p, j),
    decreases s.len() + 1 - from,
{
    if 0 <= from && from + p.len() <= s.len() && !spec_has_at(s, p, from) {
        lemma_find_from_bounds(s, p, from + 1, j);
    }
}

/// A successful backwards search lands inside the text.
pub proof fn lemma_find_last_bounds(s: Seq<char>, p: Seq<char>, upto: int, j: int)
    requires
        spec_find_last_upto(s, p, upto) == Some(j),
    ensures
        0 <= j <= upto,
        spec_has_at(s, p, j),
    decreases upto + 1,
{
    if upto >= 0 && !spec_has_at(s, p, upto) {
        lemma_find_last_bounds(s, p, upto - 1, j);
    }
}

/// Finding inside a suffix is finding in the whole text, shifted.
pub proof fn lemma_find_in_skip(s: Seq<char>, p: Seq<char>, pos: int, k: int)
    requires
        0 <= pos <= s.len(),
        0 <= k,
    ensures
        spec_find_from(s.skip(pos), p, k) == (match spec_find_from(s, p, pos + k) {
            Some(j) => Some(j - pos),
            None => None::<int>,
        }),
    decreases s.len() + 1 - pos - k,
{
    let t = s.skip(pos);
    if k + p.len() <= t.len() {
        assert(t.subrange(k, k + p.len() as int) =~= s.subrange(
            pos + k,
            pos + k + p.len() as int,
        ));
        if !spec_has_at(t, p, k) {
            lemma_find_in_skip(s, p, pos, k + 1);
        }
    }
}

/// `s` from position `k` on, where `k` is pulled into range first.
pub open spec fn spec_skip_clamped(s: Seq<char>, k: int) -> Seq<char> {
    if k < 0 {
        s
    } else if k > s.len() {
        s.skip(s.len() as int)
    } else {
        s.skip(k)
    }
}

/// The bytes of `v` from `from` (inclusive) to `to` (exclusive).
pub fn subrange_bytes(v: &Vec<u8>, from: usize, to: usize) -> (r: Vec<u8>)
    requires
        from <= to <= v@.len(),
    ensures
        r@ == v@.subrange(from as int, to as int),
{
    let mut r: Vec<u8> = Vec::new();
    let mut i: usize = from;
    while i < to
        invariant
            from <= i <= to <= v@.len(),
            r@ == v@.subrange(from as int, i as int),
        decreases to - i,
    {
        r.push(v[i]);
        proof {
            assert(r@ =~= v@.subrange(from as int, i + 1));
        }
        i = i + 1;
    }
    r
}

/// An upper-case ASCII letter folded to its lower-case form; every other
/// character unchanged.
pub open spec fn spec_lower_char(c: char) -> char {
    if 'A' <= c && c <= 'Z' {
        (((c as u8) + 32) as u8) as char
    } else {
        c
    }
}

/// A text with its ASCII letters folded to lower case.
pub open spec fn spec_lowercase(s: Seq<char>) -> Seq<char> {
    s.map_values(|c: char| spec_lower_char(c))
}

/// One character folded to ASCII lower case.
pub fn lower_char(c: char) -> (r: char)
    ensures
        r == spec_lower_char(c),
{
    if 'A' <= c && c <= 'Z' {
        let b: u8 = c as u8;
        let l: u8 = b + 32;
        l as char
    } else {
        c
    }
}

/// `s` with its ASCII letters folded to lower case.
pub fn lowercase_ascii(s: &str) -> (r: String)
    ensures
        r@ == spec_lowercase(s@),
{
    let cs = chars_of(s);
    let n = cs.len();
    let mut out: Vec<char> = Vec::new();
    let mut i: usize = 0;
    while i < n
        invariant
            i <= n,
            n == cs@.len(),
            cs@ == s@,
            out@ == spec_lowercase(s@.take(i as int)),
        decreases n - i,
    {
        out.push(lower_char(cs[i]));
        proof {
            assert(out@ =~= spec_lowercase(s@.take(i + 1)));
        }
        i = i + 1;
    }
    proof {
        assert(s@.take(n as int) =~= s@);
        assert(out@ =~= spec_lowercase(s@));
    }
    string_from_chars(&out)
}

/// The digit character of one decimal digit.
pub open spec fn spec_digit(d: int) -> char {
    if d == 0 {
        '0'
    } else if d == 1 {
        '1'
    } else if d == 2 {
        '2'
    } else if d == 3 {
        '3'
    } else if d == 4 {
        '4'
    } else if d == 5 {
        '5'
    } else if d == 6 {
        '6'
    } else if d == 7 {
        '7'
    } else if d == 8 {
        '8'
    } else {
        '9'
    }
}

/// The decimal writing of `n`, most significant digit first.
pub open spec fn spec_decimal(n: int) -> Seq<char>
    decreases n,
{
    if n < 10 {
        seq![spec_digit(n)]
    } else {
        spec_decimal(n / 10).push(spec_digit(n % 10))
    }
}

/// The digit character of `d`.
fn digit_char(d: u64) -> (r: char)
    requires
        d < 10,
    ensures
        r == spec_digit(d as int),
{
    if d == 0 {
        '0'
    } else if d == 1 {
        '1'
    } else if d == 2 {
        '2'
    } else if d == 3 {
        '3'
    } else if d == 4 {
        '4'
    } else if d == 5 {
        '5'
    } else if d == 6 {
        '6'
    } else if d == 7 {
        '7'
    } else if d == 8 {
        '8'
    } else {
        '9'
    }
}

/// The decimal digits of `n`.
pub fn decimal_chars(n: u64) -> (r: Vec<char>)
    ensures
        r@ == spec_decimal(n as int),
    decreases n,
{
    if n < 10 {
        let mut r: Vec<char> = Vec::new();
        r.push(digit_char(n));
        proof {
            assert(r@ =~= seq![spec_digit(n as int)]);
        }
        r
    } else {
        let mut r = decimal_chars(n / 10);
        r.push(digit_char(n % 10));
        r
    }
}

/// The decimal writing of `n`.
pub fn decimal_string(n: u64) -> (r: String)
    ensures
        r@ == spec_decimal(n as int),
{
    let cs = decimal_chars(n);
    string_from_chars(&cs)
}

/// What a lossy decode of a byte sequence reads: a function of the bytes
/// alone, with invalid sequences replaced.
pub uninterp spec fn lossy_decode(bytes: Seq<u8>) -> Seq<char>;

/// Relies on `String::from_utf8_lossy`: the result depends on the bytes
/// alone; valid UTF-8 decodes exactly; no bytes decode to no characters.
#[verifier::external_body]
pub fn decode_lossy(bytes: &[u8]) -> (r: String)
    ensures
        r@ == lossy_decode(bytes@),
        vstd::utf8::valid_utf8(bytes@) ==> r@ == vstd::utf8::decode_utf8(bytes@),
        bytes@.len() == 0 ==> r@.len() == 0,
{
    String::from_utf8_lossy(bytes).into_owned()
}

/// Relies on `core::str::from_utf8`: it succeeds exactly on valid UTF-8 and
/// then decodes it.
#[verifier::external_body]
pub fn decode_strict(bytes: &[u8]) -> (r: Option<String>)
    ensures
        match r {
            Some(s) => vstd::utf8::valid_utf8(bytes@) && s@ == vstd::utf8::decode_utf8(bytes@),
            None => !vstd::utf8::valid_utf8(bytes@),
        },
{
    match core::str::from_utf8(bytes) {
        Ok(s) => Some(s.to_string()),
        Err(_) => None,
    }
}

} // verus!
