//! The TL declaration grammar at token level: constructor headers
//! (`name#id params = Result;`), parameter tokens (`name:Type`,
//! `name:flags.N?Type`, `name:#`, `name:!X`, `{X:Type}`), and the name
//! helpers built on them.

use vstd::prelude::*;
use crate::text::{
    alnum, alpha, chars_of, digit, extend, extend_str, find_char, find_char_exec, hex_lower, is_ascii_alnum,
    is_ascii_alpha, is_ascii_char, is_ascii_digit, is_ascii_lower, is_ascii_upper, is_hex_lower,
    is_ws, lower, lower_char, map_char, map_char_exec, slice_copy, string_of, to_lower, trim,
    trimmed, upper, ws, ascii,
};
use crate::tl::{parse_u32, parse_u32_exec};

verus! {

// ---------------------------------------------------------------------------
// Character classes of the grammar
// ---------------------------------------------------------------------------

pub enum Class {
    /// `[a-zA-Z.0-9_]`: constructor names.
    Name,
    /// `[A-Za-z0-9<>._]`: type expressions.
    Type,
    /// `\s`
    Space,
    /// `[0-9a-f]`
    Hex,
    /// `[a-zA-Z0-9_]`: identifier continuation.
    Ident,
    /// `[a-z0-9_]`: flag field continuation.
    LowerIdent,
    /// `[0-9]`
    Digit,
    /// `[a-zA-Z]`
    Alpha,
}

pub open spec fn in_class(k: Class, c: char) -> bool {
    match k {
        Class::Name => is_ascii_alnum(c) || c == '.' || c == '_',
        Class::Type => is_ascii_alnum(c) || c == '<' || c == '>' || c == '.' || c == '_',
        Class::Space => is_ws(c),
        Class::Hex => is_hex_lower(c),
        Class::Ident => is_ascii_alnum(c) || c == '_',
        Class::LowerIdent => is_ascii_lower(c) || is_ascii_digit(c) || c == '_',
        Class::Digit => is_ascii_digit(c),
        Class::Alpha => is_ascii_alpha(c),
    }
}

pub fn in_class_exec(k: &Class, c: char) -> (r: bool)
    ensures
        r == in_class(*k, c),
{
    match k {
        Class::Name => alnum(c) || c == '.' || c == '_',
        Class::Type => alnum(c) || c == '<' || c == '>' || c == '.' || c == '_',
        Class::Space => ws(c),
        Class::Hex => hex_lower(c),
        Class::Ident => alnum(c) || c == '_',
        Class::LowerIdent => lower(c) || digit(c) || c == '_',
        Class::Digit => digit(c),
        Class::Alpha => alpha(c),
    }
}

/// Length of the maximal run of class `k` starting at `i`.
pub open spec fn run(s: Seq<char>, i: int, k: Class) -> int
    decreases s.len() - i,
{
    if 0 <= i < s.len() && in_class(k, s[i]) { 1 + run(s, i + 1, k) } else { 0 }
}

pub proof fn lemma_run(s: Seq<char>, i: int, k: Class)
    requires
        0 <= i <= s.len(),
    ensures
        0 <= run(s, i, k) <= s.len() - i,
        forall|j: int| i <= j < i + run(s, i, k) ==> in_class(k, #[trigger] s[j]),
        i + run(s, i, k) < s.len() ==> !in_class(k, s[i + run(s, i, k)]),
    decreases s.len() - i,
{
    if i < s.len() && in_class(k, s[i]) {
        lemma_run(s, i + 1, k);
    }
}

/// All characters of `s[a..b]` are in class `k`.
pub open spec fn all_in(s: Seq<char>, a: int, b: int, k: Class) -> bool {
    forall|j: int| a <= j < b ==> in_class(k, #[trigger] s[j])
}

pub fn run_exec(s: &[char], i: usize, k: &Class) -> (r: usize)
    requires
        i <= s@.len(),
    ensures
        r as int == run(s@, i as int, *k),
        i + r <= s@.len(),
{
    let mut j = i;
    while j < s.len() && in_class_exec(k, s[j])
        invariant
            i <= j <= s@.len(),
            run(s@, i as int, *k) == (j - i) + run(s@, j as int, *k),
        decreases s.len() - j,
    {
        j += 1;
    }
    proof { lemma_run(s@, i as int, *k); }
    j - i
}

// ---------------------------------------------------------------------------
// Names
// ---------------------------------------------------------------------------

/// `a.b` -> `a_b`.
pub open spec fn spec_normalized_name(name: Seq<char>) -> Seq<char> {
    map_char(name, '.', '_')
}

/// A normalized name has the length of the name and no `.` left.
pub proof fn law_normalized_name_has_no_dot(name: Seq<char>)
    ensures
        spec_normalized_name(name).len() == name.len(),
        !spec_normalized_name(name).contains('.'),
{
    let r = spec_normalized_name(name);
    assert forall|i: int| 0 <= i < r.len() implies r[i] != '.' by {}
}

/// `normalizedName`: every `.` becomes `_`.
pub fn normalized_name(name: &str) -> (r: String)
    ensures
        r@ == spec_normalized_name(name@),
{
    let v = chars_of(name);
    let m = map_char_exec(&v, '.', '_');
    string_of(&m)
}

/// `name` has the shape `ns.Box`: alphanumerics, one dot, an uppercase
/// letter and at least one more alphanumeric.
pub open spec fn is_dotted_box(s: Seq<char>) -> bool {
    match find_char(s, '.') {
        Some(k) => 1 <= k && k + 3 <= s.len() && (forall|j: int| 0 <= j < k ==> is_ascii_alnum(#[trigger] s[j]))
            && is_ascii_upper(s[k + 1]) && (forall|j: int| k + 2 <= j < s.len() ==> is_ascii_alnum(#[trigger] s[j])),
        None => false,
    }
}

/// First character lowercased (ASCII).
pub open spec fn lower_first(s: Seq<char>) -> Seq<char> {
    if s.len() == 0 { s } else { s.update(0, to_lower(s[0])) }
}

/// First character uppercased (ASCII).
pub open spec fn upper_first(s: Seq<char>) -> Seq<char> {
    if s.len() == 0 { s } else { s.update(0, crate::text::to_upper(s[0])) }
}

/// `normalizedBareName` panics (slicing the first byte) on names without a
/// dot that are empty or start with a non-ASCII character.
pub open spec fn bare_name_panics(name: Seq<char>) -> bool {
    !is_dotted_box(name) && find_char(name, '.') is None && (name.len() == 0 || !is_ascii_char(name[0]))
}

/// Whether `normalized_bare_name` would panic on `name` (executable).
pub fn bare_name_panics_exec(name: &[char]) -> (r: bool)
    ensures
        r == bare_name_panics(name@),
{
    if is_dotted_box_exec(name) {
        return false;
    }
    if find_char_exec(name, '.').is_some() {
        return false;
    }
    name.len() == 0 || !ascii(name[0])
}

/// `ns.Box` -> `ns_box`; `Box` -> `box`; any other dotted name is an error.
pub open spec fn spec_normalized_bare_name(name: Seq<char>) -> Result<Seq<char>, Seq<char>> {
    if is_dotted_box(name) {
        let k = find_char(name, '.')->0;
        Ok(name.take(k) + "_"@ + lower_first(name.skip(k + 1)))
    } else if find_char(name, '.') is Some {
        Err("Bad name: "@ + name)
    } else {
        Ok(lower_first(name))
    }
}

pub fn is_dotted_box_exec(s: &[char]) -> (r: bool)
    ensures
        r == is_dotted_box(s@),
{
    match find_char_exec(s, '.') {
        Some(k) => {
            if k < 1 || s.len() - k < 3 {
                return false;
            }
            let mut j: usize = 0;
            while j < k
                invariant
                    j <= k < s@.len(),
                    find_char(s@, '.') == Some(k as int),
                    forall|t: int| 0 <= t < j ==> is_ascii_alnum(#[trigger] s@[t]),
                decreases k - j,
            {
                if !alnum(s[j]) {
                    return false;
                }
                j += 1;
            }
            if !upper(s[k + 1]) {
                return false;
            }
            let mut t = k + 2;
            while t < s.len()
                invariant
                    k + 2 <= t <= s@.len(),
                    find_char(s@, '.') == Some(k as int),
                    k >= 1,
                    is_ascii_upper(s@[k + 1]),
                    forall|u: int| 0 <= u < k ==> is_ascii_alnum(#[trigger] s@[u]),
                    forall|u: int| k + 2 <= u < t ==> is_ascii_alnum(#[trigger] s@[u]),
                decreases s.len() - t,
            {
                if !alnum(s[t]) {
                    return false;
                }
                t += 1;
            }
            true
        },
        None => false,
    }
}

fn lower_first_exec(v: &mut Vec<char>)
    ensures
        final(v)@ == lower_first(old(v)@),
{
    if v.len() > 0 {
        let c = lower_char(v[0]);
        v.set(0, c);
    }
}

/// `normalizedBareName`: `ns.Box` -> `ns_box`; bare `Box` -> `box`; `Err`
/// with `Bad name: ...` for any other dotted name.
pub fn normalized_bare_name(name: &str) -> (r: Result<String, String>)
    requires
        !bare_name_panics(name@),
    ensures
        match r {
            Ok(s) => spec_normalized_bare_name(name@) == Ok::<Seq<char>, Seq<char>>(s@),
            Err(e) => spec_normalized_bare_name(name@) == Err::<Seq<char>, Seq<char>>(e@),
        },
{
    let v = chars_of(name);
    if is_dotted_box_exec(&v) {
        let n = v.len();
        let k = find_char_exec(&v, '.').unwrap();
        let mut out = slice_copy(&v, 0, k);
        out.push('_');
        let mut tail = slice_copy(&v, k + 1, v.len());
        lower_first_exec(&mut tail);
        let ghost o = out@;
        extend(&mut out, &tail);
        proof { reveal_strlit("_"); assert(out@ =~= v@.take(k as int) + "_"@ + lower_first(v@.skip(k + 1))); }
        return Ok(string_of(&out));
    }
    if find_char_exec(&v, '.').is_some() {
        let mut e = String::from_str("Bad name: ");
        e.append(name);
        return Err(e);
    }
    let mut out = slice_copy(&v, 0, v.len());
    assert(out@ =~= v@);
    lower_first_exec(&mut out);
    Ok(string_of(&out))
}

// ---------------------------------------------------------------------------
// Constructor header: `([a-zA-Z\.0-9_]+)(#[0-9a-f]+)?([^=]*)=\s*([a-zA-Z\.<>0-9_]+);`
// ---------------------------------------------------------------------------

/// Parsed constructor header: name, optional `#hexid`, raw params, result.
#[derive(Debug)]
pub struct CtorHeader {
    pub name: String,
    pub id_hex: Option<String>,
    pub params_raw: String,
    pub result: String,
}

/// First `=` at or after `i`.
pub open spec fn eq_after(s: Seq<char>, i: int) -> Option<int>
    decreases s.len() - i,
{
    if i < 0 || i >= s.len() {
        None
    } else if s[i] == '=' {
        Some(i)
    } else {
        eq_after(s, i + 1)
    }
}

/// After the `=` at `e`: optional spaces, a type run, then `;`. Returns the
/// bounds of the type run.
pub open spec fn result_after(s: Seq<char>, e: int) -> Option<(int, int)> {
    let a = e + 1 + run(s, e + 1, Class::Space);
    let f = a + run(s, a, Class::Type);
    if f > a && f < s.len() && s[f] == ';' { Some((a, f)) } else { None }
}

/// A match can start at `i`.
pub open spec fn ctor_starts_at(s: Seq<char>, i: int) -> bool {
    0 <= i < s.len() && in_class(Class::Name, s[i]) && match eq_after(s, i) {
        Some(e) => result_after(s, e) is Some,
        None => false,
    }
}

/// Leftmost start at or after `i`.
pub open spec fn ctor_start_from(s: Seq<char>, i: int) -> Option<int>
    decreases s.len() - i,
{
    if i < 0 || i >= s.len() {
        None
    } else if ctor_starts_at(s, i) {
        Some(i)
    } else {
        ctor_start_from(s, i + 1)
    }
}

/// Model of a parsed header.
pub struct HeaderModel {
    pub name: Seq<char>,
    pub id_hex: Option<Seq<char>>,
    pub params_raw: Seq<char>,
    pub result: Seq<char>,
}

/// The header the constructor pattern captures in `trim(line)`.
pub open spec fn spec_parse_ctor_header(line: Seq<char>) -> Option<HeaderModel> {
    let s = trim(line);
    match ctor_start_from(s, 0) {
        None => None,
        Some(i) => {
            let j = i + run(s, i, Class::Name);
            let e = eq_after(s, i)->0;
            let (a, f) = result_after(s, e)->0;
            let has_id = j + 1 < s.len() && s[j] == '#' && is_hex_lower(s[j + 1]);
            let h = run(s, j + 1, Class::Hex);
            let j2 = if has_id { j + 1 + h } else { j };
            Some(HeaderModel {
                name: s.subrange(i, j),
                id_hex: if has_id { Some(s.subrange(j + 1, j + 1 + h)) } else { None },
                params_raw: s.subrange(j2, e),
                result: s.subrange(a, f),
            })
        },
    }
}

pub open spec fn header_view(h: CtorHeader) -> HeaderModel {
    HeaderModel {
        name: h.name@,
        id_hex: match h.id_hex { Some(x) => Some(x@), None => None },
        params_raw: h.params_raw@,
        result: h.result@,
    }
}

pub proof fn lemma_eq_after(s: Seq<char>, i: int)
    requires
        0 <= i,
    ensures
        eq_after(s, i) matches Some(e) ==> i <= e < s.len() && s[e] == '=' && forall|j: int| i <= j < e ==> s[j] != '=',
        eq_after(s, i) is None ==> forall|j: int| i <= j < s.len() ==> s[j] != '=',
    decreases s.len() - i,
{
    if i < s.len() && s[i] != '=' {
        lemma_eq_after(s, i + 1);
    }
}

fn eq_after_exec(s: &[char], i: usize) -> (r: Option<usize>)
    ensures
        r matches Some(e) ==> eq_after(s@, i as int) == Some(e as int),
        r is None ==> eq_after(s@, i as int) is None,
{
    let mut k = i;
    while k < s.len()
        invariant
            i <= k,
            eq_after(s@, i as int) == eq_after(s@, k as int),
        decreases s.len() - k,
    {
        if s[k] == '=' {
            return Some(k);
        }
        k += 1;
    }
    None
}

fn result_after_exec(s: &[char], e: usize) -> (r: Option<(usize, usize)>)
    requires
        e < s@.len(),
    ensures
        r matches Some(p) ==> result_after(s@, e as int) == Some((p.0 as int, p.1 as int)),
        r is None ==> result_after(s@, e as int) is None,
{
    let n = s.len();
    let w = run_exec(s, e + 1, &Class::Space);
    let a = e + 1 + w;
    let t = run_exec(s, a, &Class::Type);
    let f = a + t;
    if f > a && f < s.len() && s[f] == ';' {
        Some((a, f))
    } else {
        None
    }
}

/// Apply the constructor pattern to one (comment-stripped) line, after
/// trimming it: leftmost match, name run, optional `#hexid`, raw params up
/// to the first `=`, and the result type before `;`.
pub fn parse_ctor_header(line: &str) -> (r: Option<CtorHeader>)
    ensures
        r matches Some(h) ==> spec_parse_ctor_header(line@) == Some(header_view(h)),
        r is None ==> spec_parse_ctor_header(line@) is None,
{
    let lv = chars_of(line);
    let s = trimmed(&lv);
    let mut i: usize = 0;
    while i < s.len()
        invariant
            i <= s@.len(),
            s@ == trim(line@),
            ctor_start_from(s@, 0) == ctor_start_from(s@, i as int),
        decreases s.len() - i,
    {
        if in_class_exec(&Class::Name, s[i]) {
            match eq_after_exec(&s, i) {
                Some(e) => {
                    proof { lemma_eq_after(s@, i as int); }
                    match result_after_exec(&s, e) {
                        Some((a, f)) => {
                            assert(ctor_starts_at(s@, i as int));
                            let j = i + run_exec(&s, i, &Class::Name);
                            proof { lemma_run(s@, i as int, Class::Name); }
                            let has_id = j + 1 < s.len() && s[j] == '#' && hex_lower(s[j + 1]);
                            let mut j2 = j;
                            let mut id_hex: Option<String> = None;
                            if has_id {
                                let h = run_exec(&s, j + 1, &Class::Hex);
                                let id = slice_copy(&s, j + 1, j + 1 + h);
                                id_hex = Some(string_of(&id));
                                j2 = j + 1 + h;
                                proof {
                                    lemma_run(s@, j + 1, Class::Hex);
                                    assert(j2 <= e) by {
                                        if j2 > e {
                                            assert(in_class(Class::Hex, s@[e as int]));
                                        }
                                    }
                                }
                            } else {
                                assert(j <= e) by {
                                    if j > e {
                                        assert(in_class(Class::Name, s@[e as int]));
                                    }
                                }
                            }
                            let name = slice_copy(&s, i, j);
                            let params = slice_copy(&s, j2, e);
                            let result = slice_copy(&s, a, f);
                            return Some(CtorHeader {
                                name: string_of(&name),
                                id_hex,
                                params_raw: string_of(&params),
                                result: string_of(&result),
                            });
                        },
                        None => {},
                    }
                },
                None => {},
            }
        }
        i += 1;
    }
    None
}

// ---------------------------------------------------------------------------
// Parameter tokens:
// `([a-zA-Z_][a-zA-Z0-9_]*):([A-Za-z0-9<>\._]+|![a-zA-Z]+|#|[a-z_][a-z0-9_]*\.[0-9]+\?[A-Za-z0-9<>\._]+)$`
// ---------------------------------------------------------------------------

/// One raw parameter token.
#[derive(Debug, Clone, PartialEq)]
pub enum RawParam {
    /// `{X:Type}` template placeholder.
    TemplateDecl { var: String, bound: String },
    /// `!X` template use.
    TemplateUse(String),
    /// `name:#` flags field.
    Flags,
    /// `name:flags.N?Type` conditional.
    Flagged { name: String, flag: String, bit: u32, inner: String },
    /// Plain `name:Type`.
    Plain { name: String, ty: String },
}

/// Model of a raw parameter.
pub enum RawParamModel {
    TemplateDecl { var: Seq<char>, bound: Seq<char> },
    TemplateUse(Seq<char>),
    Flags,
    Flagged { name: Seq<char>, flag: Seq<char>, bit: u32, inner: Seq<char> },
    Plain { name: Seq<char>, ty: Seq<char> },
}

pub open spec fn raw_param_view(p: RawParam) -> RawParamModel {
    match p {
        RawParam::TemplateDecl { var, bound } => RawParamModel::TemplateDecl { var: var@, bound: bound@ },
        RawParam::TemplateUse(v) => RawParamModel::TemplateUse(v@),
        RawParam::Flags => RawParamModel::Flags,
        RawParam::Flagged { name, flag, bit, inner } => RawParamModel::Flagged { name: name@, flag: flag@, bit, inner: inner@ },
        RawParam::Plain { name, ty } => RawParamModel::Plain { name: name@, ty: ty@ },
    }
}

/// `t` is a whole `[a-z_][a-z0-9_]*\.[0-9]+\?[type]+`.
pub open spec fn is_flag_type(t: Seq<char>) -> bool {
    let a = 1 + run(t, 1, Class::LowerIdent);
    let d = run(t, a + 1, Class::Digit);
    let b = a + 1 + d;
    &&& t.len() > 0
    &&& (is_ascii_lower(t[0]) || t[0] == '_')
    &&& a < t.len() && t[a] == '.'
    &&& d > 0
    &&& b < t.len() && t[b] == '?'
    &&& b + 1 < t.len() && all_in(t, b + 1, t.len() as int, Class::Type)
}

/// `t` matches one of the four type alternatives completely.
pub open spec fn is_param_type(t: Seq<char>) -> bool {
    ||| (t.len() > 0 && all_in(t, 0, t.len() as int, Class::Type))
    ||| (t.len() > 1 && t[0] == '!' && all_in(t, 1, t.len() as int, Class::Alpha))
    ||| t == seq!['#']
    ||| is_flag_type(t)
}

/// A `name:type` match can start at `i`; the `:` is at the end of the name
/// run.
pub open spec fn param_starts_at(s: Seq<char>, i: int) -> bool {
    let k = i + 1 + run(s, i + 1, Class::Ident);
    0 <= i < s.len() && (is_ascii_alpha(s[i]) || s[i] == '_') && k < s.len() && s[k] == ':'
        && is_param_type(s.skip(k + 1))
}

pub open spec fn param_start_from(s: Seq<char>, i: int) -> Option<int>
    decreases s.len() - i,
{
    if i < 0 || i >= s.len() {
        None
    } else if param_starts_at(s, i) {
        Some(i)
    } else {
        param_start_from(s, i + 1)
    }
}

/// `(name, type)` the parameter pattern captures, if it matches.
pub open spec fn param_captures(s: Seq<char>) -> Option<(Seq<char>, Seq<char>)> {
    match param_start_from(s, 0) {
        None => None,
        Some(i) => {
            let k = i + 1 + run(s, i + 1, Class::Ident);
            Some((s.subrange(i, k), s.skip(k + 1)))
        },
    }
}

/// `str::split_once(c)`.
pub open spec fn split_once(s: Seq<char>, c: char) -> Option<(Seq<char>, Seq<char>)> {
    match find_char(s, c) {
        Some(k) => Some((s.take(k), s.skip(k + 1))),
        None => None,
    }
}

/// The token is `{...}` (at least two characters).
pub open spec fn is_braced(t: Seq<char>) -> bool {
    t.len() >= 2 && t[0] == '{' && t.last() == '}'
}

/// Classification of one parameter token.
pub open spec fn spec_parse_raw_param(token: Seq<char>) -> Option<RawParamModel> {
    if is_braced(token) {
        let inner = token.subrange(1, token.len() - 1);
        match split_once(inner, ':') {
            Some((var, bound)) => Some(RawParamModel::TemplateDecl { var, bound }),
            None => None,
        }
    } else {
        match param_captures(token) {
            None => None,
            Some((name, ty)) => {
                if ty.len() > 0 && ty[0] == '!' {
                    Some(RawParamModel::TemplateUse(ty.drop_first()))
                } else if ty == seq!['#'] {
                    Some(RawParamModel::Flags)
                } else {
                    match split_once(ty, '.') {
                        Some((flag, rest)) => match split_once(rest, '?') {
                            Some((bit_str, inner)) => match parse_u32(bit_str) {
                                Some(bit) => Some(RawParamModel::Flagged { name, flag, bit, inner }),
                                None => Some(RawParamModel::Plain { name, ty }),
                            },
                            None => Some(RawParamModel::Plain { name, ty }),
                        },
                        None => Some(RawParamModel::Plain { name, ty }),
                    }
                }
            },
        }
    }
}

fn all_in_exec(s: &[char], a: usize, b: usize, k: &Class) -> (r: bool)
    requires
        a <= b <= s@.len(),
    ensures
        r == all_in(s@, a as int, b as int, *k),
{
    let mut j = a;
    while j < b
        invariant
            a <= j <= b <= s@.len(),
            all_in(s@, a as int, j as int, *k),
        decreases b - j,
    {
        if !in_class_exec(k, s[j]) {
            return false;
        }
        j += 1;
    }
    true
}

fn is_flag_type_exec(t: &[char]) -> (r: bool)
    ensures
        r == is_flag_type(t@),
{
    if t.len() == 0 || !(lower(t[0]) || t[0] == '_') {
        return false;
    }
    let a = 1 + run_exec(t, 1, &Class::LowerIdent);
    if !(a < t.len() && t[a] == '.') {
        return false;
    }
    let d = run_exec(t, a + 1, &Class::Digit);
    let b = a + 1 + d;
    if !(d > 0 && b < t.len() && t[b] == '?' && b + 1 < t.len()) {
        return false;
    }
    all_in_exec(t, b + 1, t.len(), &Class::Type)
}

fn is_param_type_exec(t: &[char]) -> (r: bool)
    ensures
        r == is_param_type(t@),
{
    if t.len() > 0 && all_in_exec(t, 0, t.len(), &Class::Type) {
        return true;
    }
    if t.len() > 1 && t[0] == '!' && all_in_exec(t, 1, t.len(), &Class::Alpha) {
        return true;
    }
    if t.len() == 1 && t[0] == '#' {
        assert(t@ =~= seq!['#']);
        return true;
    }
    is_flag_type_exec(t)
}

fn param_captures_exec(s: &[char]) -> (r: Option<(Vec<char>, Vec<char>)>)
    ensures
        r matches Some(p) ==> param_captures(s@) == Some((p.0@, p.1@)),
        r is None ==> param_captures(s@) is None,
{
    let mut i: usize = 0;
    while i < s.len()
        invariant
            i <= s@.len(),
            param_start_from(s@, 0) == param_start_from(s@, i as int),
        decreases s.len() - i,
    {
        if alpha(s[i]) || s[i] == '_' {
            let k = i + 1 + run_exec(s, i + 1, &Class::Ident);
            if k < s.len() && s[k] == ':' {
                let t = slice_copy(s, k + 1, s.len());
                assert(t@ =~= s@.skip(k + 1));
                if is_param_type_exec(&t) {
                    let name = slice_copy(s, i, k);
                    return Some((name, t));
                }
            }
        }
        i += 1;
    }
    None
}

pub fn split_once_exec(s: &[char], c: char) -> (r: Option<(Vec<char>, Vec<char>)>)
    ensures
        r matches Some(p) ==> split_once(s@, c) == Some((p.0@, p.1@)),
        r is None ==> split_once(s@, c) is None,
{
    let n = s.len();
    match find_char_exec(s, c) {
        Some(k) => {
            let a = slice_copy(s, 0, k);
            let b = slice_copy(s, k + 1, s.len());
            assert(a@ =~= s@.take(k as int));
            assert(b@ =~= s@.skip(k + 1));
            Some((a, b))
        },
        None => None,
    }
}

/// Classify one parameter token: `{X:Type}`, `name:!X`, `name:#`,
/// `name:flags.N?Type` or plain `name:Type`; `None` when the token matches
/// none of them.
pub fn parse_raw_param(token: &str) -> (r: Option<RawParam>)
    ensures
        r matches Some(p) ==> spec_parse_raw_param(token@) == Some(raw_param_view(p)),
        r is None ==> spec_parse_raw_param(token@) is None,
{
    let t = chars_of(token);
    if t.len() >= 2 && t[0] == '{' && t[t.len() - 1] == '}' {
        let inner = slice_copy(&t, 1, t.len() - 1);
        return match split_once_exec(&inner, ':') {
            Some((var, bound)) => Some(RawParam::TemplateDecl { var: string_of(&var), bound: string_of(&bound) }),
            None => None,
        };
    }
    let (name, ty) = match param_captures_exec(&t) {
        Some(p) => p,
        None => return None,
    };
    if ty.len() > 0 && ty[0] == '!' {
        let v = slice_copy(&ty, 1, ty.len());
        assert(v@ =~= ty@.drop_first());
        return Some(RawParam::TemplateUse(string_of(&v)));
    }
    if ty.len() == 1 && ty[0] == '#' {
        assert(ty@ =~= seq!['#']);
        return Some(RawParam::Flags);
    }
    assert(ty@ != seq!['#']) by {
        if ty@ == seq!['#'] { assert(ty@.len() == 1); }
    }
    let plain = RawParam::Plain { name: string_of(&name), ty: string_of(&ty) };
    match split_once_exec(&ty, '.') {
        Some((flag, rest)) => match split_once_exec(&rest, '?') {
            Some((bit_str, inner)) => match parse_u32_exec(&bit_str) {
                Some(bit) => Some(RawParam::Flagged {
                    name: string_of(&name),
                    flag: string_of(&flag),
                    bit,
                    inner: string_of(&inner),
                }),
                None => Some(plain),
            },
            None => Some(plain),
        },
        None => Some(plain),
    }
}

// ---------------------------------------------------------------------------
// `(.*?)([vV]ector<)([A-Za-z0-9_]+)>$`
// ---------------------------------------------------------------------------

/// Number of trailing `[A-Za-z0-9_]` characters of `s[..end]`.
pub open spec fn back_run(s: Seq<char>, end: int) -> int
    decreases end,
{
    if 0 < end <= s.len() && in_class(Class::Ident, s[end - 1]) { 1 + back_run(s, end - 1) } else { 0 }
}

/// Last `\n` strictly before `p`, plus one (0 when there is none).
pub open spec fn line_start(s: Seq<char>, p: int) -> int
    decreases p,
{
    if p <= 0 || p > s.len() {
        0
    } else if s[p - 1] == '\n' {
        p
    } else {
        line_start(s, p - 1)
    }
}

/// Position of the `vector<` / `Vector<` the pattern matches, if any.
pub open spec fn vector_at(s: Seq<char>) -> Option<int> {
    let w = back_run(s, s.len() - 1);
    let p = s.len() - 1 - w - 7;
    if s.len() > 0 && s.last() == '>' && w > 0 && p >= 0
        && (s.subrange(p, p + 7) == "vector<"@ || s.subrange(p, p + 7) == "Vector<"@) {
        Some(p)
    } else {
        None
    }
}

/// `Vector<T>` -> `Vector<std::optional<T>>`, keeping whatever precedes it on
/// the same line.
pub open spec fn spec_optional_in_vector(s: Seq<char>) -> Result<Seq<char>, Seq<char>> {
    match vector_at(s) {
        Some(p) => {
            let i = line_start(s, p);
            Ok(s.subrange(i, p + 7) + "std::optional<"@ + s.subrange(p + 7, s.len() - 1) + ">>"@)
        },
        None => Err("Bad optional vector: "@ + s),
    }
}

pub proof fn lemma_back_run(s: Seq<char>, end: int)
    requires
        0 <= end <= s.len(),
    ensures
        0 <= back_run(s, end) <= end,
    decreases end,
{
    if 0 < end && in_class(Class::Ident, s[end - 1]) {
        lemma_back_run(s, end - 1);
    }
}

pub proof fn lemma_line_start(s: Seq<char>, p: int)
    requires
        0 <= p <= s.len(),
    ensures
        0 <= line_start(s, p) <= p,
    decreases p,
{
    if p > 0 && s[p - 1] != '\n' {
        lemma_line_start(s, p - 1);
    }
}

/// `optionalInVector`: `Vector<T>` -> `Vector<std::optional<T>>`; `Err`
/// with `Bad optional vector: ...` when the name does not end in such a
/// vector.
pub fn optional_in_vector(name: &str) -> (r: Result<String, String>)
    ensures
        match r {
            Ok(s) => spec_optional_in_vector(name@) == Ok::<Seq<char>, Seq<char>>(s@),
            Err(e) => spec_optional_in_vector(name@) == Err::<Seq<char>, Seq<char>>(e@),
        },
{
    proof { reveal_strlit("vector<"); reveal_strlit("Vector<"); }
    let s = chars_of(name);
    let bad = {
        let mut e = String::from_str("Bad optional vector: ");
        e.append(name);
        e
    };
    if s.len() == 0 || s[s.len() - 1] != '>' {
        return Err(bad);
    }
    let mut end = s.len() - 1;
    while end > 0 && in_class_exec(&Class::Ident, s[end - 1])
        invariant
            end <= s@.len() - 1,
            back_run(s@, s@.len() - 1) == (s@.len() - 1 - end) + back_run(s@, end as int),
        decreases end,
    {
        end -= 1;
    }
    let w = s.len() - 1 - end;
    if w == 0 || end < 7 {
        return Err(bad);
    }
    let p = end - 7;
    let head = slice_copy(&s, p, end);
    let v1 = chars_of("vector<");
    let v2 = chars_of("Vector<");
    if !(crate::text::eq_chars(&head, &v1) || crate::text::eq_chars(&head, &v2)) {
        return Err(bad);
    }
    let mut i = p;
    while i > 0 && s[i - 1] != '\n'
        invariant
            i <= p,
            p < s@.len(),
            line_start(s@, p as int) == line_start(s@, i as int),
        decreases i,
    {
        i -= 1;
    }
    let mut out = slice_copy(&s, i, end);
    extend_str(&mut out, "std::optional<");
    let word = slice_copy(&s, end, s.len() - 1);
    extend(&mut out, &word);
    extend_str(&mut out, ">>");
    Ok(string_of(&out))
}

} // verus!
