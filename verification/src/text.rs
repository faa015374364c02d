//! Character-level text model: the spec vocabulary (trimming, searching,
//! replacing, splitting) over `Seq<char>` and verified executable
//! counterparts over `Vec<char>` / `&[char]`.

use vstd::prelude::*;

verus! {

// ---------------------------------------------------------------------------
// Character classes
// ---------------------------------------------------------------------------

/// Unicode `White_Space` (what `char::is_whitespace`, `str::trim` and the
/// `\s` class use).
pub open spec fn is_ws(c: char) -> bool {
    ||| ('\u{9}' <= c && c <= '\u{d}')
    ||| c == ' '
    ||| c == '\u{85}'
    ||| c == '\u{a0}'
    ||| c == '\u{1680}'
    ||| ('\u{2000}' <= c && c <= '\u{200a}')
    ||| c == '\u{2028}'
    ||| c == '\u{2029}'
    ||| c == '\u{202f}'
    ||| c == '\u{205f}'
    ||| c == '\u{3000}'
}

pub open spec fn is_ascii_upper(c: char) -> bool { 'A' <= c && c <= 'Z' }
pub open spec fn is_ascii_lower(c: char) -> bool { 'a' <= c && c <= 'z' }
pub open spec fn is_ascii_digit(c: char) -> bool { '0' <= c && c <= '9' }
pub open spec fn is_ascii_alpha(c: char) -> bool { is_ascii_upper(c) || is_ascii_lower(c) }
pub open spec fn is_ascii_alnum(c: char) -> bool { is_ascii_alpha(c) || is_ascii_digit(c) }
pub open spec fn is_ascii_char(c: char) -> bool { (c as u32) < 128 }
/// `[0-9a-f]`
pub open spec fn is_hex_lower(c: char) -> bool { is_ascii_digit(c) || ('a' <= c && c <= 'f') }

/// ASCII lowercase mapping (identity outside `A-Z`).
pub open spec fn to_lower(c: char) -> char {
    if is_ascii_upper(c) { ((c as u32) + 32) as char } else { c }
}

/// ASCII uppercase mapping (identity outside `a-z`).
pub open spec fn to_upper(c: char) -> char {
    if is_ascii_lower(c) { ((c as u32) - 32) as char } else { c }
}

pub fn ws(c: char) -> (b: bool)
    ensures b == is_ws(c),
{
    (c >= '\u{9}' && c <= '\u{d}') || c == ' ' || c == '\u{85}' || c == '\u{a0}'
        || c == '\u{1680}' || (c >= '\u{2000}' && c <= '\u{200a}') || c == '\u{2028}'
        || c == '\u{2029}' || c == '\u{202f}' || c == '\u{205f}' || c == '\u{3000}'
}

pub fn upper(c: char) -> (b: bool)
    ensures b == is_ascii_upper(c),
{
    c >= 'A' && c <= 'Z'
}

pub fn lower(c: char) -> (b: bool)
    ensures b == is_ascii_lower(c),
{
    c >= 'a' && c <= 'z'
}

pub fn digit(c: char) -> (b: bool)
    ensures b == is_ascii_digit(c),
{
    c >= '0' && c <= '9'
}

pub fn alpha(c: char) -> (b: bool)
    ensures b == is_ascii_alpha(c),
{
    upper(c) || lower(c)
}

pub fn alnum(c: char) -> (b: bool)
    ensures b == is_ascii_alnum(c),
{
    alpha(c) || digit(c)
}

pub fn ascii(c: char) -> (b: bool)
    ensures b == is_ascii_char(c),
{
    (c as u32) < 128
}

pub fn hex_lower(c: char) -> (b: bool)
    ensures b == is_hex_lower(c),
{
    digit(c) || (c >= 'a' && c <= 'f')
}

fn char_from_ascii(b: u8) -> (c: char)
    requires b < 128,
    ensures c as u32 == b as u32,
{
    b as char
}

pub fn lower_char(c: char) -> (r: char)
    ensures r == to_lower(c),
{
    if upper(c) {
        let b = (c as u32 + 32) as u8;
        char_from_ascii(b)
    } else {
        c
    }
}

pub fn upper_char(c: char) -> (r: char)
    ensures r == to_upper(c),
{
    if lower(c) {
        let b = (c as u32 - 32) as u8;
        char_from_ascii(b)
    } else {
        c
    }
}

} // verus!

verus! {

// ---------------------------------------------------------------------------
// Conversions between `str`/`String` and `Vec<char>`
// ---------------------------------------------------------------------------

/// `String::push`: appends one character.
#[verifier::external_body]
pub(crate) fn push_char(s: &mut String, c: char)
    ensures
        final(s)@ == old(s)@.push(c),
{
    s.push(c);
}

/// The characters of a string slice.
pub fn chars_of(s: &str) -> (v: Vec<char>)
    ensures
        v@ == s@,
{
    let n = s.unicode_len();
    let mut v: Vec<char> = Vec::new();
    let mut i: usize = 0;
    while i < n
        invariant
            n == s@.len(),
            i <= n,
            v@ == s@.subrange(0, i as int),
        decreases n - i,
    {
        let c = s.get_char(i);
        v.push(c);
        i += 1;
    }
    v
}

/// Appends characters to a string.
pub fn push_chars(s: &mut String, v: &[char])
    ensures
        final(s)@ == old(s)@ + v@,
{
    let mut i: usize = 0;
    while i < v.len()
        invariant
            i <= v@.len(),
            s@ == old(s)@ + v@.subrange(0, i as int),
        decreases v.len() - i,
    {
        push_char(s, v[i]);
        i += 1;
        assert(s@ =~= old(s)@ + v@.subrange(0, i as int));
    }
    assert(v@.subrange(0, v@.len() as int) =~= v@);
}

/// A string holding exactly the given characters.
pub fn string_of(v: &[char]) -> (s: String)
    ensures
        s@ == v@,
{
    let mut s = String::new();
    push_chars(&mut s, v);
    s
}

/// Appends `w` to `v`.
pub fn extend(v: &mut Vec<char>, w: &[char])
    ensures
        final(v)@ == old(v)@ + w@,
{
    let mut i: usize = 0;
    while i < w.len()
        invariant
            i <= w@.len(),
            v@ == old(v)@ + w@.subrange(0, i as int),
        decreases w.len() - i,
    {
        v.push(w[i]);
        i += 1;
        assert(v@ =~= old(v)@ + w@.subrange(0, i as int));
    }
    assert(w@.subrange(0, w@.len() as int) =~= w@);
}

/// Appends the characters of `s` to `v`.
pub fn extend_str(v: &mut Vec<char>, s: &str)
    ensures
        final(v)@ == old(v)@ + s@,
{
    let w = chars_of(s);
    extend(v, &w);
}

/// Copy of `s[a..b]`.
pub fn slice_copy(s: &[char], a: usize, b: usize) -> (r: Vec<char>)
    requires
        a <= b <= s@.len(),
    ensures
        r@ == s@.subrange(a as int, b as int),
{
    let mut r: Vec<char> = Vec::new();
    let mut i = a;
    while i < b
        invariant
            a <= i <= b,
            b <= s@.len(),
            r@ == s@.subrange(a as int, i as int),
        decreases b - i,
    {
        r.push(s[i]);
        i += 1;
        assert(r@ =~= s@.subrange(a as int, i as int));
    }
    r
}

/// Character-wise equality of two slices.
pub fn eq_chars(a: &[char], b: &[char]) -> (r: bool)
    ensures
        r == (a@ == b@),
{
    if a.len() != b.len() {
        return false;
    }
    let mut i: usize = 0;
    while i < a.len()
        invariant
            a@.len() == b@.len(),
            i <= a@.len(),
            forall|j: int| 0 <= j < i ==> a@[j] == b@[j],
        decreases a.len() - i,
    {
        if a[i] != b[i] {
            return false;
        }
        i += 1;
    }
    assert(a@ =~= b@);
    true
}

/// Equality of a character slice with a string slice.
pub fn eq_str(a: &[char], b: &str) -> (r: bool)
    ensures
        r == (a@ == b@),
{
    let w = chars_of(b);
    eq_chars(a, &w)
}

// ---------------------------------------------------------------------------
// Trimming
// ---------------------------------------------------------------------------

/// Number of leading whitespace characters.
pub open spec fn lead_ws(s: Seq<char>) -> nat
    decreases s.len(),
{
    if s.len() > 0 && is_ws(s[0]) { 1 + lead_ws(s.drop_first()) } else { 0 }
}

/// Number of trailing whitespace characters.
pub open spec fn trail_ws(s: Seq<char>) -> nat
    decreases s.len(),
{
    if s.len() > 0 && is_ws(s.last()) { 1 + trail_ws(s.drop_last()) } else { 0 }
}

/// `str::trim_start`
pub open spec fn trim_start(s: Seq<char>) -> Seq<char> {
    s.skip(lead_ws(s) as int)
}

/// `str::trim_end`
pub open spec fn trim_end(s: Seq<char>) -> Seq<char> {
    s.take(s.len() - trail_ws(s))
}

/// `str::trim`
pub open spec fn trim(s: Seq<char>) -> Seq<char> {
    trim_end(trim_start(s))
}

pub proof fn lemma_lead_ws(s: Seq<char>)
    ensures
        lead_ws(s) <= s.len(),
        forall|j: int| 0 <= j < lead_ws(s) ==> is_ws(#[trigger] s[j]),
        lead_ws(s) < s.len() ==> !is_ws(s[lead_ws(s) as int]),
    decreases s.len(),
{
    if s.len() > 0 && is_ws(s[0]) {
        lemma_lead_ws(s.drop_first());
        assert forall|j: int| 0 <= j < lead_ws(s) implies is_ws(#[trigger] s[j]) by {
            if j > 0 {
                assert(s[j] == s.drop_first()[j - 1]);
            }
        }
        if lead_ws(s) < s.len() {
            assert(s[lead_ws(s) as int] == s.drop_first()[lead_ws(s.drop_first()) as int]);
        }
    }
}

pub proof fn lemma_trail_ws(s: Seq<char>)
    ensures
        trail_ws(s) <= s.len(),
        forall|j: int| s.len() - trail_ws(s) <= j < s.len() ==> is_ws(#[trigger] s[j]),
        trail_ws(s) < s.len() ==> !is_ws(s[s.len() - trail_ws(s) - 1]),
    decreases s.len(),
{
    if s.len() > 0 && is_ws(s.last()) {
        lemma_trail_ws(s.drop_last());
        assert forall|j: int| s.len() - trail_ws(s) <= j < s.len() implies is_ws(#[trigger] s[j]) by {
            if j < s.len() - 1 {
                assert(s[j] == s.drop_last()[j]);
            }
        }
        if trail_ws(s) < s.len() {
            assert(s[s.len() - trail_ws(s) - 1] == s.drop_last()[s.drop_last().len() - trail_ws(s.drop_last()) - 1]);
        }
    }
}

/// `lead_ws` is determined by the characteristic properties above.
pub proof fn lemma_lead_ws_unique(s: Seq<char>, k: int)
    requires
        0 <= k <= s.len(),
        forall|j: int| 0 <= j < k ==> is_ws(#[trigger] s[j]),
        k < s.len() ==> !is_ws(s[k]),
    ensures
        lead_ws(s) == k,
    decreases s.len(),
{
    if k > 0 {
        assert(is_ws(s[0]));
        assert forall|j: int| 0 <= j < k - 1 implies is_ws(#[trigger] s.drop_first()[j]) by {
            assert(s.drop_first()[j] == s[j + 1]);
        }
        if k - 1 < s.drop_first().len() {
            assert(s.drop_first()[k - 1] == s[k]);
        }
        lemma_lead_ws_unique(s.drop_first(), k - 1);
    } else {
        if s.len() > 0 {
            assert(!is_ws(s[0]));
        }
    }
}

pub proof fn lemma_trail_ws_unique(s: Seq<char>, k: int)
    requires
        0 <= k <= s.len(),
        forall|j: int| s.len() - k <= j < s.len() ==> is_ws(#[trigger] s[j]),
        k < s.len() ==> !is_ws(s[s.len() - k - 1]),
    ensures
        trail_ws(s) == k,
    decreases s.len(),
{
    if k > 0 {
        assert(is_ws(s[s.len() - 1]));
        let t = s.drop_last();
        assert forall|j: int| t.len() - (k - 1) <= j < t.len() implies is_ws(#[trigger] t[j]) by {
            assert(t[j] == s[j]);
        }
        if k - 1 < t.len() {
            assert(t[t.len() - (k - 1) - 1] == s[s.len() - k - 1]);
        }
        lemma_trail_ws_unique(t, k - 1);
    } else {
        if s.len() > 0 {
            assert(!is_ws(s.last()));
        }
    }
}

/// Bounds `(a, b)` of `trim(s)` inside `s`.
pub fn trim_bounds(s: &[char]) -> (r: (usize, usize))
    ensures
        r.0 <= r.1 <= s@.len(),
        s@.subrange(r.0 as int, r.1 as int) == trim(s@),
        r.0 == lead_ws(s@),
{
    let n = s.len();
    let mut a: usize = 0;
    while a < n && ws(s[a])
        invariant
            a <= n == s@.len(),
            forall|j: int| 0 <= j < a ==> is_ws(#[trigger] s@[j]),
        decreases n - a,
    {
        a += 1;
    }
    proof { lemma_lead_ws_unique(s@, a as int); }
    let mut b: usize = n;
    while b > a && ws(s[b - 1])
        invariant
            a <= b <= n == s@.len(),
            forall|j: int| b <= j < n ==> is_ws(#[trigger] s@[j]),
        decreases b - a,
    {
        b -= 1;
    }
    proof {
        let t = s@.skip(a as int);
        assert forall|j: int| t.len() - (n - b) <= j < t.len() implies is_ws(#[trigger] t[j]) by {
            assert(t[j] == s@[j + a]);
        }
        if n - b < t.len() {
            assert(t[t.len() - (n - b) - 1] == s@[b - 1]);
        }
        lemma_trail_ws_unique(t, (n - b) as int);
        assert(s@.subrange(a as int, b as int) =~= trim(s@));
    }
    (a, b)
}

/// `trim(s)` as a new vector.
pub fn trimmed(s: &[char]) -> (r: Vec<char>)
    ensures
        r@ == trim(s@),
{
    let (a, b) = trim_bounds(s);
    slice_copy(s, a, b)
}

// ---------------------------------------------------------------------------
// Prefixes, suffixes, searching
// ---------------------------------------------------------------------------

pub open spec fn starts_with(s: Seq<char>, p: Seq<char>) -> bool {
    p.len() <= s.len() && s.take(p.len() as int) == p
}

pub open spec fn ends_with(s: Seq<char>, p: Seq<char>) -> bool {
    p.len() <= s.len() && s.skip(s.len() - p.len()) == p
}

/// `p` occurs in `s` at position `i`.
pub open spec fn matches_at(s: Seq<char>, p: Seq<char>, i: int) -> bool {
    0 <= i && i + p.len() <= s.len() && s.subrange(i, i + p.len()) == p
}

/// First occurrence of `p` at or after `i` (`str::find` from `i`).
pub open spec fn find_from(s: Seq<char>, p: Seq<char>, i: int) -> Option<int>
    decreases s.len() + 1 - i,
{
    if i < 0 || i + p.len() > s.len() {
        None
    } else if matches_at(s, p, i) {
        Some(i)
    } else {
        find_from(s, p, i + 1)
    }
}

/// `str::find`
pub open spec fn find(s: Seq<char>, p: Seq<char>) -> Option<int> {
    find_from(s, p, 0)
}

/// `str::contains`
pub open spec fn contains(s: Seq<char>, p: Seq<char>) -> bool {
    find(s, p) is Some
}

pub proof fn lemma_find_from(s: Seq<char>, p: Seq<char>, i: int)
    requires
        0 <= i,
    ensures
        find_from(s, p, i) matches Some(k) ==> i <= k && matches_at(s, p, k)
            && forall|j: int| i <= j < k ==> !matches_at(s, p, j),
        find_from(s, p, i) is None ==> forall|j: int| i <= j ==> !matches_at(s, p, j),
    decreases s.len() + 1 - i,
{
    if i + p.len() > s.len() {
    } else if matches_at(s, p, i) {
    } else {
        lemma_find_from(s, p, i + 1);
    }
}

/// `contains` holds exactly when the pattern matches somewhere.
pub proof fn lemma_contains_iff_matches(s: Seq<char>, p: Seq<char>, i: int)
    requires
        matches_at(s, p, i),
    ensures
        contains(s, p),
{
    lemma_find_from(s, p, 0);
}

/// A text contains any suffix it ends with.
pub proof fn lemma_contains_suffix(a: Seq<char>, b: Seq<char>)
    ensures
        contains(a + b, b),
{
    assert((a + b).subrange(a.len() as int, (a.len() + b.len()) as int) =~= b);
    lemma_contains_iff_matches(a + b, b, a.len() as int);
}

/// Appending keeps every occurrence.
pub proof fn lemma_contains_extend(a: Seq<char>, b: Seq<char>, x: Seq<char>)
    requires
        contains(a, x),
    ensures
        contains(a + b, x),
{
    lemma_find_from(a, x, 0);
    let k = find(a, x)->0;
    assert((a + b).subrange(k, k + x.len()) =~= a.subrange(k, k + x.len()));
    lemma_contains_iff_matches(a + b, x, k);
}

/// `replace` with a nonempty pattern writes no character that neither the
/// text nor the replacement holds.
pub proof fn lemma_replace_from_no_char(s: Seq<char>, from: Seq<char>, to: Seq<char>, i: int, x: char)
    requires
        !s.contains(x),
        !to.contains(x),
    ensures
        !replace_from(s, from, to, i).contains(x),
    decreases s.len() - i,
{
    if i < 0 || i >= s.len() || from.len() == 0 {
    } else if matches_at(s, from, i) {
        lemma_replace_from_no_char(s, from, to, i + from.len(), x);
        let r = replace_from(s, from, to, i + from.len());
        assert forall|j: int| 0 <= j < (to + r).len() implies (to + r)[j] != x by {
            if j < to.len() { assert(to[j] != x); } else { assert(r[j - to.len()] != x); }
        }
    } else {
        lemma_replace_from_no_char(s, from, to, i + 1, x);
        let r = replace_from(s, from, to, i + 1);
        assert forall|j: int| 0 <= j < (seq![s[i]] + r).len() implies (seq![s[i]] + r)[j] != x by {
            if j == 0 { assert(s[i] != x); } else { assert(r[j - 1] != x); }
        }
    }
}

/// After mapping `a` to another character, no `a` is left.
pub proof fn lemma_map_char_clears(s: Seq<char>, a: char, b: char)
    requires
        a != b,
    ensures
        !map_char(s, a, b).contains(a),
{
    assert forall|j: int| 0 <= j < map_char(s, a, b).len() implies map_char(s, a, b)[j] != a by {}
}

/// Mapping one character onto another adds no third character.
pub proof fn lemma_map_char_keeps_absent(s: Seq<char>, a: char, b: char, x: char)
    requires
        !s.contains(x),
        b != x,
    ensures
        !map_char(s, a, b).contains(x),
{
    assert forall|j: int| 0 <= j < map_char(s, a, b).len() implies map_char(s, a, b)[j] != x by {
        assert(s[j] != x);
    }
}

/// Dropping characters adds none.
pub proof fn lemma_drop_chars_keeps_absent(s: Seq<char>, a: char, b: char, x: char)
    requires
        !s.contains(x),
    ensures
        !drop_chars(s, a, b).contains(x),
    decreases s.len(),
{
    if s.len() > 0 {
        assert forall|j: int| 0 <= j < s.drop_last().len() implies s.drop_last()[j] != x by {
            assert(s[j] != x);
        }
        lemma_drop_chars_keeps_absent(s.drop_last(), a, b, x);
        let r = drop_chars(s.drop_last(), a, b);
        if !(s.last() == a || s.last() == b) {
            assert(s[s.len() - 1] != x);
            assert forall|j: int| 0 <= j < r.push(s.last()).len() implies r.push(s.last())[j] != x by {
                if j < r.len() { assert(r[j] != x); }
            }
        }
    }
}

/// First occurrence of `c`.
pub open spec fn find_char(s: Seq<char>, c: char) -> Option<int> {
    find(s, seq![c])
}

pub proof fn lemma_matches_at_char(s: Seq<char>, c: char, i: int)
    ensures
        matches_at(s, seq![c], i) == (0 <= i < s.len() && s[i] == c),
{
    if 0 <= i < s.len() && s[i] == c {
        assert(s.subrange(i, i + 1) =~= seq![c]);
    }
    if matches_at(s, seq![c], i) {
        assert(s.subrange(i, i + 1)[0] == s[i]);
    }
}

/// `p` occurs in `s` at `i` (executable).
pub fn at(s: &[char], p: &[char], i: usize) -> (r: bool)
    ensures
        r == matches_at(s@, p@, i as int),
{
    if i > s.len() || p.len() > s.len() - i {
        return false;
    }
    let mut j: usize = 0;
    let n = s.len();
    while j < p.len()
        invariant
            n == s@.len(),
            i + p@.len() <= s@.len(),
            i <= s@.len(),
            j <= p@.len(),
            forall|k: int| 0 <= k < j ==> s@[i + k] == p@[k],
        decreases p.len() - j,
    {
        assert(i + j < s@.len());
        if s[i + j] != p[j] {
            assert(s@.subrange(i as int, i + p@.len())[j as int] == s@[i + j]);
            return false;
        }
        j += 1;
    }
    assert(s@.subrange(i as int, i + p@.len()) =~= p@);
    true
}

/// `str::find` from position `i` (executable).
pub fn find_from_exec(s: &[char], p: &[char], i: usize) -> (r: Option<usize>)
    ensures
        r matches Some(k) ==> find_from(s@, p@, i as int) == Some(k as int),
        r is None ==> find_from(s@, p@, i as int) is None,
{
    if p.len() == 0 {
        if i <= s.len() {
            assert(s@.subrange(i as int, i as int) =~= p@);
            return Some(i);
        }
        return None;
    }
    let mut k = i;
    while k < s.len() && p.len() <= s.len() - k
        invariant
            i <= k,
            p@.len() > 0,
            find_from(s@, p@, i as int) == find_from(s@, p@, k as int),
        decreases s.len() + 1 - k,
    {
        if at(s, p, k) {
            return Some(k);
        }
        k += 1;
    }
    None
}

/// `str::find` (executable).
pub fn find_exec(s: &[char], p: &[char]) -> (r: Option<usize>)
    ensures
        r matches Some(k) ==> find(s@, p@) == Some(k as int),
        r is None ==> find(s@, p@) is None,
{
    find_from_exec(s, p, 0)
}

/// First index of `c` (executable).
pub fn find_char_exec(s: &[char], c: char) -> (r: Option<usize>)
    ensures
        r matches Some(k) ==> find_char(s@, c) == Some(k as int) && k < s@.len() && s@[k as int] == c
            && forall|j: int| 0 <= j < k ==> s@[j] != c,
        r is None ==> find_char(s@, c) is None && forall|j: int| 0 <= j < s@.len() ==> s@[j] != c,
{
    let p = vec![c];
    let r = find_exec(s, &p);
    proof {
        assert(p@ =~= seq![c]);
        lemma_find_from(s@, seq![c], 0);
        assert forall|j: int| 0 <= j < s@.len() && (r is None || j < r->0) implies s@[j] != c by {
            lemma_matches_at_char(s@, c, j);
        }
        if let Some(k) = r {
            lemma_matches_at_char(s@, c, k as int);
        }
    }
    r
}

/// Last index of `c` in `s`.
pub open spec fn rfind_char(s: Seq<char>, c: char) -> Option<int>
    decreases s.len(),
{
    if s.len() == 0 {
        None
    } else if s.last() == c {
        Some(s.len() - 1)
    } else {
        rfind_char(s.drop_last(), c)
    }
}

pub proof fn lemma_rfind_char(s: Seq<char>, c: char)
    ensures
        rfind_char(s, c) matches Some(k) ==> 0 <= k < s.len() && s[k] == c
            && forall|j: int| k < j < s.len() ==> s[j] != c,
        rfind_char(s, c) is None ==> forall|j: int| 0 <= j < s.len() ==> s[j] != c,
    decreases s.len(),
{
    if s.len() > 0 && s.last() != c {
        lemma_rfind_char(s.drop_last(), c);
        assert forall|j: int| 0 <= j < s.len() - 1 implies s[j] == s.drop_last()[j] by {}
    }
}

pub proof fn lemma_rfind_char_unique(s: Seq<char>, c: char, k: int)
    requires
        0 <= k < s.len(),
        s[k] == c,
        forall|j: int| k < j < s.len() ==> s[j] != c,
    ensures
        rfind_char(s, c) == Some(k),
    decreases s.len(),
{
    if k < s.len() - 1 {
        assert(s.last() != c);
        assert forall|j: int| k < j < s.drop_last().len() implies s.drop_last()[j] != c by {
            assert(s.drop_last()[j] == s[j]);
        }
        lemma_rfind_char_unique(s.drop_last(), c, k);
    }
}

pub proof fn lemma_rfind_char_none(s: Seq<char>, c: char)
    requires
        forall|j: int| 0 <= j < s.len() ==> s[j] != c,
    ensures
        rfind_char(s, c) is None,
    decreases s.len(),
{
    if s.len() > 0 {
        assert forall|j: int| 0 <= j < s.drop_last().len() implies s.drop_last()[j] != c by {
            assert(s.drop_last()[j] == s[j]);
        }
        lemma_rfind_char_none(s.drop_last(), c);
    }
}

/// Last index of `c` (executable).
pub fn rfind_char_exec(s: &[char], c: char) -> (r: Option<usize>)
    ensures
        r matches Some(k) ==> rfind_char(s@, c) == Some(k as int),
        r is None ==> rfind_char(s@, c) is None,
{
    let mut k = s.len();
    while k > 0
        invariant
            k <= s@.len(),
            forall|j: int| k <= j < s@.len() ==> s@[j] != c,
        decreases k,
    {
        if s[k - 1] == c {
            proof { lemma_rfind_char_unique(s@, c, k - 1); }
            return Some(k - 1);
        }
        k -= 1;
    }
    proof { lemma_rfind_char_none(s@, c); }
    None
}

pub fn starts_with_exec(s: &[char], p: &[char]) -> (r: bool)
    ensures
        r == starts_with(s@, p@),
{
    let r = at(s, p, 0);
    proof {
        if p@.len() <= s@.len() {
            assert(s@.subrange(0, p@.len() as int) =~= s@.take(p@.len() as int));
        }
    }
    r
}

pub fn ends_with_exec(s: &[char], p: &[char]) -> (r: bool)
    ensures
        r == ends_with(s@, p@),
{
    if p.len() > s.len() {
        return false;
    }
    let r = at(s, p, s.len() - p.len());
    proof {
        assert(s@.subrange(s@.len() - p@.len(), s@.len() as int) =~= s@.skip(s@.len() - p@.len()));
    }
    r
}

// ---------------------------------------------------------------------------
// Replacing
// ---------------------------------------------------------------------------

/// `str::replace` for a non-empty pattern, scanning from position `i`:
/// non-overlapping matches, left to right.
pub open spec fn replace_from(s: Seq<char>, from: Seq<char>, to: Seq<char>, i: int) -> Seq<char>
    recommends
        from.len() > 0,
    decreases s.len() - i,
{
    if i < 0 || i >= s.len() || from.len() == 0 {
        Seq::empty()
    } else if matches_at(s, from, i) {
        to + replace_from(s, from, to, i + from.len())
    } else {
        seq![s[i]] + replace_from(s, from, to, i + 1)
    }
}

/// `str::replace` with an empty pattern: `to` between all characters and at
/// both ends.
pub open spec fn replace_empty(s: Seq<char>, to: Seq<char>) -> Seq<char>
    decreases s.len(),
{
    if s.len() == 0 {
        to
    } else {
        to + seq![s[0]] + replace_empty(s.drop_first(), to)
    }
}

/// `str::replace(from, to)`
pub open spec fn replace(s: Seq<char>, from: Seq<char>, to: Seq<char>) -> Seq<char> {
    if from.len() == 0 {
        replace_empty(s, to)
    } else {
        replace_from(s, from, to, 0)
    }
}

/// `str::replace` (executable).
pub fn replace_exec(s: &[char], from: &[char], to: &[char]) -> (r: Vec<char>)
    ensures
        r@ == replace(s@, from@, to@),
{
    let mut out: Vec<char> = Vec::new();
    if from.len() == 0 {
        let mut i: usize = 0;
        assert(s@.skip(0) =~= s@);
        while i < s.len()
            invariant
                i <= s@.len(),
                from@.len() == 0,
                out@ + replace_empty(s@.skip(i as int), to@) == replace_empty(s@, to@),
            decreases s.len() - i,
        {
            proof {
                let t = s@.skip(i as int);
                assert(t.drop_first() =~= s@.skip(i + 1));
                assert(t[0] == s@[i as int]);
            }
            let ghost prev = out@;
            extend(&mut out, to);
            out.push(s[i]);
            proof {
                let t = s@.skip(i as int);
                assert(out@ =~= prev + to@ + seq![t[0]]);
                assert(out@ + replace_empty(s@.skip(i + 1), to@) =~= prev + replace_empty(t, to@));
            }
            i += 1;
        }
        extend(&mut out, to);
        proof {
            assert(s@.skip(s@.len() as int) =~= Seq::<char>::empty());
        }
        return out;
    }
    let mut i: usize = 0;
    assert(out@ =~= Seq::<char>::empty());
    while i < s.len()
        invariant
            i <= s@.len(),
            from@.len() > 0,
            out@ + replace_from(s@, from@, to@, i as int) == replace_from(s@, from@, to@, 0),
        decreases s.len() - i,
    {
        if at(s, from, i) {
            extend(&mut out, to);
            assert(out@ + replace_from(s@, from@, to@, i + from@.len()) =~= replace_from(s@, from@, to@, 0));
            i += from.len();
        } else {
            out.push(s[i]);
            assert(out@ + replace_from(s@, from@, to@, i + 1) =~= replace_from(s@, from@, to@, 0));
            i += 1;
        }
    }
    out
}

/// Replaces every occurrence of character `a` by `b`.
pub open spec fn map_char(s: Seq<char>, a: char, b: char) -> Seq<char> {
    s.map_values(|c: char| if c == a { b } else { c })
}

pub fn map_char_exec(s: &[char], a: char, b: char) -> (r: Vec<char>)
    ensures
        r@ == map_char(s@, a, b),
{
    let mut r: Vec<char> = Vec::new();
    let mut i: usize = 0;
    while i < s.len()
        invariant
            i <= s@.len(),
            r@ == map_char(s@.take(i as int), a, b),
        decreases s.len() - i,
    {
        if s[i] == a {
            r.push(b);
        } else {
            r.push(s[i]);
        }
        assert(s@.take(i + 1).drop_last() =~= s@.take(i as int));
        assert(r@ =~= map_char(s@.take(i + 1), a, b));
        i += 1;
    }
    assert(s@.take(s@.len() as int) =~= s@);
    r
}

// ---------------------------------------------------------------------------
// Splitting
// ---------------------------------------------------------------------------

/// `str::split(c)`: all pieces, including empty ones.
pub open spec fn split_char(s: Seq<char>, c: char) -> Seq<Seq<char>>
    decreases s.len(),
{
    match find_char(s, c) {
        Some(i) => if 0 <= i < s.len() {
            seq![s.take(i)] + split_char(s.skip(i + 1), c)
        } else {
            seq![s]
        },
        None => seq![s],
    }
}

/// `str::split(c)` (executable).
pub fn split_char_exec(s: &[char], c: char) -> (r: Vec<Vec<char>>)
    ensures
        r@.map_values(|v: Vec<char>| v@) == split_char(s@, c),
{
    let mut r: Vec<Vec<char>> = Vec::new();
    let mut start: usize = 0;
    assert(s@.skip(0) =~= s@);
    assert(r@.map_values(|v: Vec<char>| v@) =~= Seq::<Seq<char>>::empty());
    loop
        invariant
            start <= s@.len(),
            r@.map_values(|v: Vec<char>| v@) + split_char(s@.skip(start as int), c) == split_char(s@, c),
        decreases s.len() - start,
    {
        let rest = slice_copy(s, start, s.len());
        match find_char_exec(&rest, c) {
            Some(k) => {
                let piece = slice_copy(&rest, 0, k);
                proof {
                    assert(rest@ =~= s@.skip(start as int));
                    assert(piece@ =~= rest@.take(k as int));
                    assert(rest@.skip(k + 1) =~= s@.skip(start + k + 1));
                }
                r.push(piece);
                proof {
                    let ghost rr = r@.map_values(|v: Vec<char>| v@);
                    assert(rr =~= r@.drop_last().map_values(|v: Vec<char>| v@).push(piece@));
                }
                start = start + k + 1;
                proof {
                    let ghost rr = r@.map_values(|v: Vec<char>| v@);
                    assert(rr + split_char(s@.skip(start as int), c) =~= split_char(s@, c));
                }
            },
            None => {
                proof { assert(rest@ =~= s@.skip(start as int)); }
                r.push(rest);
                proof {
                    let ghost rr = r@.map_values(|v: Vec<char>| v@);
                    assert(rr =~= r@.drop_last().map_values(|v: Vec<char>| v@).push(rest@));
                    assert(rr =~= split_char(s@, c));
                }
                return r;
            },
        }
    }
}

} // verus!

verus! {

/// The views of a list of strings.
pub open spec fn views(v: Seq<String>) -> Seq<Seq<char>> {
    v.map_values(|s: String| s@)
}

/// Equality of two string slices by their characters.
pub fn str_eq(a: &str, b: &str) -> (r: bool)
    ensures
        r == (a@ == b@),
{
    let w = chars_of(a);
    eq_str(&w, b)
}

/// Membership of `x` in a list of strings.
pub fn contains_str(v: &Vec<String>, x: &str) -> (r: bool)
    ensures
        r == views(v@).contains(x@),
{
    let mut i: usize = 0;
    while i < v.len()
        invariant
            i <= v@.len(),
            forall|j: int| 0 <= j < i ==> v@[j]@ != x@,
        decreases v.len() - i,
    {
        if str_eq(v[i].as_str(), x) {
            assert(views(v@)[i as int] == x@);
            return true;
        }
        i += 1;
    }
    assert forall|j: int| 0 <= j < views(v@).len() implies views(v@)[j] != x@ by {
        assert(views(v@)[j] == v@[j]@);
    }
    false
}

} // verus!

verus! {

/// The views of a list of string pairs.
pub open spec fn pair_views(v: Seq<(String, String)>) -> Seq<(Seq<char>, Seq<char>)> {
    v.map_values(|p: (String, String)| (p.0@, p.1@))
}

/// `s` without any occurrence of `a` or `b`.
pub open spec fn drop_chars(s: Seq<char>, a: char, b: char) -> Seq<char>
    decreases s.len(),
{
    if s.len() == 0 {
        s
    } else if s.last() == a || s.last() == b {
        drop_chars(s.drop_last(), a, b)
    } else {
        drop_chars(s.drop_last(), a, b).push(s.last())
    }
}

pub fn drop_chars_exec(s: &[char], a: char, b: char) -> (r: Vec<char>)
    ensures
        r@ == drop_chars(s@, a, b),
{
    let mut r: Vec<char> = Vec::new();
    let mut i: usize = 0;
    while i < s.len()
        invariant
            i <= s@.len(),
            r@ == drop_chars(s@.take(i as int), a, b),
        decreases s.len() - i,
    {
        assert(s@.take(i + 1).drop_last() =~= s@.take(i as int));
        if s[i] != a && s[i] != b {
            r.push(s[i]);
        }
        i += 1;
    }
    assert(s@.take(s@.len() as int) =~= s@);
    r
}

/// `str::trim_start_matches(c)`: number of leading `c`s removed.
pub open spec fn lead_count(s: Seq<char>, c: char) -> nat
    decreases s.len(),
{
    if s.len() > 0 && s[0] == c { 1 + lead_count(s.drop_first(), c) } else { 0 }
}

pub open spec fn trim_start_char(s: Seq<char>, c: char) -> Seq<char> {
    s.skip(lead_count(s, c) as int)
}

pub proof fn lemma_lead_count_unique(s: Seq<char>, c: char, k: int)
    requires
        0 <= k <= s.len(),
        forall|j: int| 0 <= j < k ==> #[trigger] s[j] == c,
        k < s.len() ==> s[k] != c,
    ensures
        lead_count(s, c) == k,
    decreases s.len(),
{
    if k > 0 {
        assert(s[0] == c);
        assert forall|j: int| 0 <= j < k - 1 implies #[trigger] s.drop_first()[j] == c by {
            assert(s.drop_first()[j] == s[j + 1]);
        }
        if k - 1 < s.drop_first().len() {
            assert(s.drop_first()[k - 1] == s[k]);
        }
        lemma_lead_count_unique(s.drop_first(), c, k - 1);
    } else if s.len() > 0 {
        assert(s[0] != c);
    }
}

pub fn trim_start_char_exec(s: &[char], c: char) -> (r: Vec<char>)
    ensures
        r@ == trim_start_char(s@, c),
{
    let mut k: usize = 0;
    while k < s.len() && s[k] == c
        invariant
            k <= s@.len(),
            forall|j: int| 0 <= j < k ==> #[trigger] s@[j] == c,
        decreases s.len() - k,
    {
        k += 1;
    }
    proof { lemma_lead_count_unique(s@, c, k as int); }
    slice_copy(s, k, s.len())
}

/// `str::eq_ignore_ascii_case`
pub open spec fn eq_ignore_ascii_case(a: Seq<char>, b: Seq<char>) -> bool {
    a.len() == b.len() && forall|i: int| 0 <= i < a.len() ==> to_lower(#[trigger] a[i]) == to_lower(b[i])
}

pub fn eq_ignore_ascii_case_exec(a: &[char], b: &[char]) -> (r: bool)
    ensures
        r == eq_ignore_ascii_case(a@, b@),
{
    if a.len() != b.len() {
        return false;
    }
    let mut i: usize = 0;
    while i < a.len()
        invariant
            a@.len() == b@.len(),
            i <= a@.len(),
            forall|j: int| 0 <= j < i ==> to_lower(#[trigger] a@[j]) == to_lower(b@[j]),
        decreases a.len() - i,
    {
        if lower_char(a[i]) != lower_char(b[i]) {
            return false;
        }
        i += 1;
    }
    true
}

// ---------------------------------------------------------------------------
// Hexadecimal
// ---------------------------------------------------------------------------

/// Lowercase hex digit of `d < 16`.
pub open spec fn hex_digit(d: u32) -> char {
    if d < 10 { (('0' as u32) + d) as char } else { (('a' as u32) + d - 10) as char }
}

pub fn hex_digit_exec(d: u32) -> (c: char)
    requires
        d < 16,
    ensures
        c == hex_digit(d),
{
    if d < 10 {
        char_from_ascii((48 + d) as u8)
    } else {
        char_from_ascii((97 + d - 10) as u8)
    }
}

/// `format!("{:08x}", id)`: eight lowercase hex digits, most significant
/// first.
pub open spec fn hex8(id: u32) -> Seq<char> {
    Seq::new(8, |i: int| hex_digit((id >> ((28 - 4 * i) as u32)) & 0xf))
}

/// `format!("{:x}", n)`: lowercase hex without leading zeros (`0` for zero).
pub open spec fn hex_min(n: u32) -> Seq<char>
    decreases n,
{
    if n < 16 {
        seq![hex_digit(n)]
    } else {
        hex_min(n / 16).push(hex_digit(n % 16))
    }
}

pub fn hex8_exec(id: u32) -> (r: Vec<char>)
    ensures
        r@ == hex8(id),
{
    let mut r: Vec<char> = Vec::new();
    let mut i: u32 = 0;
    while i < 8
        invariant
            i <= 8,
            r@.len() == i,
            forall|j: int| 0 <= j < i ==> #[trigger] r@[j] == hex8(id)[j],
        decreases 8 - i,
    {
        let sh: u32 = 28 - 4 * i;
        let d = (id >> sh) & 0xf;
        assert(d < 16) by (bit_vector)
            requires d == (id >> sh) & 0xf;
        let c = hex_digit_exec(d);
        r.push(c);
        i += 1;
    }
    assert(r@ =~= hex8(id));
    r
}

pub fn hex_min_exec(n: u32) -> (r: Vec<char>)
    ensures
        r@ == hex_min(n),
    decreases n,
{
    if n < 16 {
        let c = hex_digit_exec(n);
        vec![c]
    } else {
        let mut r = hex_min_exec(n / 16);
        let c = hex_digit_exec(n % 16);
        r.push(c);
        r
    }
}

pub open spec fn hex_value(c: char) -> int {
    if is_ascii_digit(c) {
        (c as u32) - ('0' as u32)
    } else if 'a' <= c && c <= 'f' {
        (c as u32) - ('a' as u32) + 10
    } else {
        (c as u32) - ('A' as u32) + 10
    }
}

pub open spec fn is_hex_any(c: char) -> bool {
    is_ascii_digit(c) || ('a' <= c && c <= 'f') || ('A' <= c && c <= 'F')
}

/// Value of a sequence of hex digits (all valid).
pub open spec fn hex_digits_value(s: Seq<char>) -> int
    decreases s.len(),
{
    if s.len() == 0 { 0 } else { hex_digits_value(s.drop_last()) * 16 + hex_value(s.last()) }
}

/// `u32::from_str_radix(s, 16).ok()`: an optional leading `+`, then at least
/// one hex digit (either case); `None` on any other character or overflow.
pub open spec fn parse_hex_u32(s: Seq<char>) -> Option<u32> {
    let d = hex_body(s);
    if d.len() == 0 || !all_hex(d) {
        None
    } else if hex_digits_value(d) > u32::MAX {
        None
    } else {
        Some(hex_digits_value(d) as u32)
    }
}

/// The digits part: `s` without one leading `+`.
pub open spec fn hex_body(s: Seq<char>) -> Seq<char> {
    if s.len() > 0 && s[0] == '+' { s.drop_first() } else { s }
}

pub open spec fn all_hex(d: Seq<char>) -> bool {
    forall|i: int| 0 <= i < d.len() ==> is_hex_any(#[trigger] d[i])
}

pub proof fn lemma_hex_digits_value_nonneg(s: Seq<char>)
    requires
        forall|i: int| 0 <= i < s.len() ==> is_hex_any(#[trigger] s[i]),
    ensures
        hex_digits_value(s) >= 0,
    decreases s.len(),
{
    if s.len() > 0 {
        assert forall|i: int| 0 <= i < s.drop_last().len() implies is_hex_any(#[trigger] s.drop_last()[i]) by {
            assert(s.drop_last()[i] == s[i]);
        }
        lemma_hex_digits_value_nonneg(s.drop_last());
        assert(is_hex_any(s[s.len() - 1]));
    }
}

pub fn parse_hex_u32_exec(s: &[char]) -> (r: Option<u32>)
    ensures
        r == parse_hex_u32(s@),
{
    let start: usize = if s.len() > 0 && s[0] == '+' { 1 } else { 0 };
    let ghost d = hex_body(s@);
    assert(d =~= s@.skip(start as int));
    if start >= s.len() {
        return None;
    }
    let mut v: u64 = 0;
    let mut i = start;
    while i < s.len()
        invariant
            start <= i <= s@.len(),
            d == s@.skip(start as int),
            d == hex_body(s@),
            forall|j: int| 0 <= j < i - start ==> is_hex_any(#[trigger] d[j]),
            v as int == hex_digits_value(d.take(i - start)),
            v <= u32::MAX,
        decreases s.len() - i,
    {
        let c = s[i];
        assert(d[i - start] == c);
        let dv: u64;
        if digit(c) {
            dv = (c as u32 - 48) as u64;
        } else if c >= 'a' && c <= 'f' {
            dv = (c as u32 - 97 + 10) as u64;
        } else if c >= 'A' && c <= 'F' {
            dv = (c as u32 - 65 + 10) as u64;
        } else {
            assert(!is_hex_any(d[i - start]));
            assert(!all_hex(d));
            assert(parse_hex_u32(s@) is None);
            return None;
        }
        assert(d.take(i + 1 - start).drop_last() =~= d.take(i - start));
        assert(d.take(i + 1 - start).last() == c);
        assert(hex_value(c) == dv as int);
        let nv = v * 16 + dv;
        if nv > 0xffff_ffff {
            proof {
                assert forall|j: int| 0 <= j < i + 1 - start implies is_hex_any(#[trigger] d.take(i + 1 - start)[j]) by {
                    assert(d.take(i + 1 - start)[j] == d[j]);
                }
                lemma_rest_value_ge(d, i + 1 - start);
                assert(hex_digits_value(d.take(i + 1 - start)) == nv as int);
                assert(parse_hex_u32(s@) is None);
            }
            return None;
        }
        v = nv;
        i += 1;
    }
    assert(d.take(i - start) =~= d);
    Some(v as u32)
}

/// Appending hex digits never decreases the value.
pub proof fn lemma_rest_value_ge(d: Seq<char>, k: int)
    requires
        0 <= k <= d.len(),
        forall|j: int| 0 <= j < k ==> is_hex_any(#[trigger] d.take(k)[j]),
    ensures
        (forall|j: int| 0 <= j < d.len() ==> is_hex_any(#[trigger] d[j])) ==>
            hex_digits_value(d) >= hex_digits_value(d.take(k)),
    decreases d.len() - k,
{
    if (forall|j: int| 0 <= j < d.len() ==> is_hex_any(#[trigger] d[j])) {
        if k < d.len() {
            assert forall|j: int| 0 <= j < k + 1 implies is_hex_any(#[trigger] d.take(k + 1)[j]) by {
                assert(d.take(k + 1)[j] == d[j]);
            }
            lemma_rest_value_ge(d, k + 1);
            assert(d.take(k + 1).drop_last() =~= d.take(k));
            lemma_hex_digits_value_nonneg(d.take(k));
            assert(d.take(k + 1).last() == d[k]);
            assert(is_hex_any(d[k]));
        } else {
            assert(d.take(k) =~= d);
        }
    }
}

} // verus!

verus! {

/// Decimal digits of `n` (no leading zeros; `0` for zero).
pub open spec fn dec(n: u32) -> Seq<char>
    decreases n,
{
    if n < 10 {
        seq![(('0' as u32) + n) as char]
    } else {
        dec(n / 10).push((('0' as u32) + n % 10) as char)
    }
}

pub fn dec_exec(n: u32) -> (r: Vec<char>)
    ensures
        r@ == dec(n),
    decreases n,
{
    if n < 10 {
        let c = char_from_ascii((48 + n) as u8);
        vec![c]
    } else {
        let mut r = dec_exec(n / 10);
        let c = char_from_ascii((48 + n % 10) as u8);
        r.push(c);
        r
    }
}

/// Decimal digits of a natural number.
pub open spec fn dec_nat(n: nat) -> Seq<char>
    decreases n,
{
    if n < 10 {
        seq![(('0' as u32) + n) as char]
    } else {
        dec_nat(n / 10).push((('0' as u32) + n % 10) as char)
    }
}

fn dec_usize_chars(n: usize) -> (r: Vec<char>)
    ensures
        r@ == dec_nat(n as nat),
    decreases n,
{
    if n < 10 {
        let c = char_from_ascii((48 + n) as u8);
        vec![c]
    } else {
        let mut r = dec_usize_chars(n / 10);
        let c = char_from_ascii((48 + n % 10) as u8);
        r.push(c);
        r
    }
}

/// A string holding `n` in decimal.
pub fn dec_usize(n: usize) -> (r: String)
    ensures
        r@ == dec_nat(n as nat),
{
    let v = dec_usize_chars(n);
    string_of(&v)
}

/// `parts.join(sep)`
pub open spec fn join(parts: Seq<Seq<char>>, sep: Seq<char>) -> Seq<char>
    decreases parts.len(),
{
    if parts.len() == 0 {
        Seq::empty()
    } else if parts.len() == 1 {
        parts[0]
    } else {
        join(parts.drop_last(), sep) + sep + parts.last()
    }
}

/// `parts.join(sep)` (executable).
pub fn join_exec(parts: &Vec<String>, sep: &str) -> (r: String)
    ensures
        r@ == join(views(parts@), sep@),
{
    let mut r = String::new();
    let mut i: usize = 0;
    while i < parts.len()
        invariant
            i <= parts@.len(),
            r@ == join(views(parts@).take(i as int), sep@),
        decreases parts.len() - i,
    {
        let ghost pv = views(parts@);
        assert(pv.take(i + 1).drop_last() =~= pv.take(i as int));
        assert(pv.take(i + 1).last() == parts@[i as int]@);
        if i > 0 {
            r.append(sep);
        } else {
            assert(r@ =~= Seq::<char>::empty());
            assert(pv.take(1) =~= seq![parts@[0]@]);
        }
        r.append(parts[i].as_str());
        proof {
            if i == 0 {
                assert(r@ =~= pv.take(1)[0]);
            }
        }
        i += 1;
    }
    assert(views(parts@).take(parts@.len() as int) =~= views(parts@));
    r
}

/// A string holding `n` in decimal.
pub fn dec_string(n: u32) -> (r: String)
    ensures
        r@ == dec(n),
{
    let v = dec_exec(n);
    string_of(&v)
}

} // verus!
