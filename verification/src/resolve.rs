//! Name resolution: prefixed type/data names and `Vector<...>` template
//! resolution against the tables parsed so far.

use vstd::prelude::*;
use crate::config::CodegenScheme;
use crate::ir::{Scheme, TypeDef, TypeDefModel, table_entries, table_get_index, table_len, table_view};
use crate::parse::{
    bare_name_panics, normalized_bare_name, normalized_name, spec_normalized_bare_name,
    spec_normalized_name, split_once,
};
use crate::text::{
    chars_of, ends_with, find_char, find_char_exec, is_ascii_upper, slice_copy, string_of, trim,
    trimmed, upper, extend, extend_str, str_eq,
};

verus! {

/// Type prefix + normalized name.
pub open spec fn spec_full_type_name(cfg: CodegenScheme, name: Seq<char>) -> Seq<char> {
    cfg.prefixes.type_@ + spec_normalized_name(name)
}

/// Data prefix + normalized name.
pub open spec fn spec_full_data_name(cfg: CodegenScheme, name: Seq<char>) -> Seq<char> {
    cfg.prefixes.data@ + spec_normalized_name(name)
}

/// Type prefix + normalized bare name.
pub open spec fn spec_full_bare_type_name(cfg: CodegenScheme, name: Seq<char>) -> Result<Seq<char>, Seq<char>> {
    match spec_normalized_bare_name(name) {
        Ok(b) => Ok(cfg.prefixes.type_@ + b),
        Err(e) => Err(e),
    }
}

/// Which name mapper a template resolution applies.
#[derive(Clone, Copy)]
pub enum Process {
    /// `full_type_name`
    FullType,
    /// `full_bare_type_name`
    FullBareType,
}

pub open spec fn spec_process(cfg: CodegenScheme, p: Process, name: Seq<char>) -> Result<Seq<char>, Seq<char>> {
    match p {
        Process::FullType => Ok(spec_full_type_name(cfg, name)),
        Process::FullBareType => spec_full_bare_type_name(cfg, name),
    }
}

pub open spec fn process_panics(p: Process, name: Seq<char>) -> bool {
    p is FullBareType && bare_name_panics(name)
}

/// `<` minus `>` count.
pub open spec fn depth(s: Seq<char>) -> int
    decreases s.len(),
{
    if s.len() == 0 {
        0
    } else {
        depth(s.drop_last()) + if s.last() == '<' { 1int } else if s.last() == '>' { -1int } else { 0int }
    }
}

/// Angle brackets balanced: no prefix closes more than it opens, and the
/// counts agree.
pub open spec fn balanced(s: Seq<char>) -> bool {
    depth(s) == 0 && forall|k: int| 0 <= k <= s.len() ==> depth(#[trigger] s.take(k)) >= 0
}

/// `Vector<...>` / `vector<...>` split into head and inner text, nesting
/// respected.
pub open spec fn spec_split_outer_template(name: Seq<char>) -> Option<(Seq<char>, Seq<char>)> {
    match find_char(name, '<') {
        None => None,
        Some(lt) => {
            if !ends_with(name, seq!['>']) || lt + 1 > name.len() - 1 {
                None
            } else if name.take(lt) != "Vector"@ && name.take(lt) != "vector"@ {
                None
            } else if !balanced(name.subrange(lt + 1, name.len() - 1)) {
                None
            } else {
                Some((name.take(lt), name.subrange(lt + 1, name.len() - 1)))
            }
        },
    }
}

/// A split template name puts back together: head, `<`, inner text, `>`,
/// with the head `Vector` or `vector` and the inner text balanced.
pub proof fn law_split_outer_template_rebuilds(name: Seq<char>)
    ensures
        spec_split_outer_template(name) matches Some(p) ==> {
            &&& p.0 + seq!['<'] + p.1 + seq!['>'] == name
            &&& (p.0 == "Vector"@ || p.0 == "vector"@)
            &&& balanced(p.1)
        },
{
    match find_char(name, '<') {
        Some(lt) => {
            crate::text::lemma_find_from(name, seq!['<'], 0);
            crate::text::lemma_matches_at_char(name, '<', lt);
            if spec_split_outer_template(name) is Some {
                assert(name.skip(name.len() - 1) =~= seq!['>']);
                assert(name[name.len() - 1] == name.skip(name.len() - 1)[0]);
                assert(name.take(lt) + seq!['<'] + name.subrange(lt + 1, name.len() - 1) + seq!['>'] =~= name);
            }
        },
        None => {},
    }
}

pub open spec fn starts_upper(s: Seq<char>) -> bool {
    s.len() > 0 && is_ascii_upper(s[0])
}

/// `ns.Type`: the text after the first dot starts uppercase.
pub open spec fn dotted_upper(s: Seq<char>) -> bool {
    match split_once(s, '.') {
        Some((_, tail)) => starts_upper(tail),
        None => false,
    }
}

/// A table entry has a constructor named `want`.
pub open spec fn has_ctor_named(d: TypeDefModel, want: Seq<char>) -> bool {
    exists|k: int| 0 <= k < d.ctors.len() && #[trigger] d.ctors[k].name == want
}

/// First key in `t` whose definition has a constructor named `want`.
pub open spec fn find_meta_in(t: Seq<(Seq<char>, TypeDefModel)>, want: Seq<char>) -> Option<Seq<char>>
    decreases t.len(),
{
    if t.len() == 0 {
        None
    } else if has_ctor_named(t[0].1, want) {
        Some(t[0].0)
    } else {
        find_meta_in(t.drop_first(), want)
    }
}

/// Types first, then functions.
pub open spec fn spec_find_meta(types: Seq<(Seq<char>, TypeDefModel)>, funcs: Seq<(Seq<char>, TypeDefModel)>, name: Seq<char>) -> Option<Seq<char>> {
    let want = spec_normalized_name(name);
    match find_meta_in(types, want) {
        Some(m) => Some(m),
        None => find_meta_in(funcs, want),
    }
}

/// The three ways the inner type of a template is resolved.
pub open spec fn inner_is_direct(cfg: CodegenScheme, inner: Seq<char>) -> bool {
    starts_upper(inner) || dotted_upper(inner) || cfg.spec_is_builtin_type(inner)
}

/// `handleTemplate`: resolve `Vector<X>` recursively with `process`.
pub open spec fn spec_handle_template(
    cfg: CodegenScheme,
    types: Seq<(Seq<char>, TypeDefModel)>,
    funcs: Seq<(Seq<char>, TypeDefModel)>,
    name: Seq<char>,
    p: Process,
) -> Result<Seq<char>, Seq<char>>
    decreases name.len(),
{
    let t = trim(name);
    match spec_split_outer_template(t) {
        None => Err("Bad template type: "@ + t),
        Some((head, inner)) => {
            let resolved = if find_char(inner, '<') is Some {
                if inner.len() < name.len() {
                    match spec_handle_template(cfg, types, funcs, inner, p) {
                        Ok(nested) => spec_process(cfg, p, nested),
                        Err(e) => Err(e),
                    }
                } else {
                    Err(Seq::empty())
                }
            } else if inner_is_direct(cfg, inner) {
                spec_process(cfg, p, inner)
            } else {
                match spec_find_meta(types, funcs, inner) {
                    Some(meta) => spec_process(cfg, p, meta),
                    None => Err("Bad vector param: "@ + inner),
                }
            };
            match resolved {
                Ok(r) => Ok(head + "<"@ + r + ">"@),
                Err(e) => Err(e),
            }
        },
    }
}

/// Resolution reaches a `process` call that would panic.
pub open spec fn handle_template_panics(
    cfg: CodegenScheme,
    types: Seq<(Seq<char>, TypeDefModel)>,
    funcs: Seq<(Seq<char>, TypeDefModel)>,
    name: Seq<char>,
    p: Process,
) -> bool
    decreases name.len(),
{
    let t = trim(name);
    match spec_split_outer_template(t) {
        None => false,
        Some((head, inner)) => {
            if find_char(inner, '<') is Some {
                if inner.len() < name.len() {
                    handle_template_panics(cfg, types, funcs, inner, p) || match spec_handle_template(cfg, types, funcs, inner, p) {
                        Ok(nested) => process_panics(p, nested),
                        Err(_) => false,
                    }
                } else {
                    false
                }
            } else if inner_is_direct(cfg, inner) {
                process_panics(p, inner)
            } else {
                match spec_find_meta(types, funcs, inner) {
                    Some(meta) => process_panics(p, meta),
                    None => false,
                }
            }
        },
    }
}

pub proof fn lemma_trim_len(s: Seq<char>)
    ensures
        trim(s).len() <= s.len(),
{
    crate::text::lemma_lead_ws(s);
    crate::text::lemma_trail_ws(s.skip(crate::text::lead_ws(s) as int));
}

/// Name helpers bound to one configuration.
pub struct Resolver<'a> {
    pub scheme: &'a CodegenScheme,
}

fn depth_step(d: usize, c: char) -> (r: Option<usize>)
    ensures
        r matches Some(x) ==> x as int == d as int + if c == '<' { 1int } else if c == '>' { -1int } else { 0int },
        r is None ==> (c == '>' && d == 0) || (c == '<' && d == usize::MAX),
{
    if c == '<' {
        if d == usize::MAX { None } else { Some(d + 1) }
    } else if c == '>' {
        if d == 0 { None } else { Some(d - 1) }
    } else {
        Some(d)
    }
}

/// Angle brackets of `inner` balanced (executable).
fn is_balanced(inner: &[char]) -> (r: bool)
    ensures
        r == balanced(inner@),
{
    let mut d: usize = 0;
    let mut j: usize = 0;
    assert(depth(inner@.take(0)) == 0);
    while j < inner.len()
        invariant
            j <= inner@.len(),
            d as int == depth(inner@.take(j as int)),
            forall|k: int| 0 <= k <= j ==> depth(#[trigger] inner@.take(k)) >= 0,
        decreases inner.len() - j,
    {
        assert(inner@.take(j + 1).drop_last() =~= inner@.take(j as int));
        proof { lemma_depth_le(inner@.take(j as int)); }
        match depth_step(d, inner[j]) {
            Some(x) => {
                d = x;
            },
            None => {
                assert(depth(inner@.take(j + 1)) < 0);
                return false;
            },
        }
        j += 1;
    }
    assert(inner@.take(inner@.len() as int) =~= inner@);
    d == 0
}

/// Split `Vector<...>` / `vector<...>` into head + inner, respecting
/// nesting.
pub fn split_outer_template(name: &[char]) -> (r: Option<(Vec<char>, Vec<char>)>)
    ensures
        r matches Some(p) ==> spec_split_outer_template(name@) == Some((p.0@, p.1@)),
        r is None ==> spec_split_outer_template(name@) is None,
{
    proof { reveal_strlit("Vector"); reveal_strlit("vector"); }
    let n = name.len();
    let lt = match find_char_exec(name, '<') {
        Some(lt) => lt,
        None => return None,
    };
    if name[n - 1] != '>' || lt + 1 > n - 1 {
        assert(!ends_with(name@, seq!['>'])) by {
            if ends_with(name@, seq!['>']) && !(lt + 1 > n - 1) {
                assert(name@.skip(n - 1)[0] == name@[n - 1]);
            }
        };
        return None;
    }
    assert(ends_with(name@, seq!['>'])) by {
        assert(name@.skip(n - 1) =~= seq!['>']);
    }
    let head = slice_copy(name, 0, lt);
    let v1 = chars_of("Vector");
    let v2 = chars_of("vector");
    if !(crate::text::eq_chars(&head, &v1) || crate::text::eq_chars(&head, &v2)) {
        return None;
    }
    let inner = slice_copy(name, lt + 1, n - 1);
    assert(head@ =~= name@.take(lt as int));
    if !is_balanced(&inner) {
        return None;
    }
    Some((head, inner))
}

pub proof fn lemma_depth_le(s: Seq<char>)
    ensures
        depth(s) <= s.len(),
    decreases s.len(),
{
    if s.len() > 0 {
        lemma_depth_le(s.drop_last());
    }
}

fn starts_upper_exec(s: &[char]) -> (r: bool)
    ensures
        r == starts_upper(s@),
{
    s.len() > 0 && upper(s[0])
}

fn dotted_upper_exec(s: &[char]) -> (r: bool)
    ensures
        r == dotted_upper(s@),
{
    let n = s.len();
    match find_char_exec(s, '.') {
        Some(k) => {
            let tail = slice_copy(s, k + 1, n);
            assert(tail@ =~= s@.skip(k + 1));
            starts_upper_exec(&tail)
        },
        None => false,
    }
}

/// A definition has a constructor named `want` (executable).
fn def_has_ctor(d: &TypeDef, want: &str) -> (r: bool)
    ensures
        r == has_ctor_named(d@, want@),
{
    let mut k: usize = 0;
    while k < d.ctors.len()
        invariant
            k <= d.ctors@.len(),
            forall|j: int| 0 <= j < k ==> d.ctors@[j].name@ != want@,
        decreases d.ctors.len() - k,
    {
        if str_eq(d.ctors[k].name.as_str(), want) {
            assert(d@.ctors[k as int].name == want@);
            return true;
        }
        k += 1;
    }
    assert forall|j: int| 0 <= j < d@.ctors.len() implies #[trigger] d@.ctors[j].name != want@ by {
        assert(d@.ctors[j] == d.ctors@[j]@);
    }
    false
}

/// First key of the table whose definition has a constructor named `want`.
fn find_meta_table(t: &indexmap::IndexMap<String, TypeDef>, want: &str) -> (r: Option<String>)
    ensures
        r matches Some(s) ==> find_meta_in(table_view(*t), want@) == Some(s@),
        r is None ==> find_meta_in(table_view(*t), want@) is None,
{
    let n = table_len(t);
    let mut i: usize = 0;
    let ghost tv = table_view(*t);
    assert(tv.skip(0) =~= tv);
    while i < n
        invariant
            n == tv.len(),
            tv == table_view(*t),
            i <= n,
            find_meta_in(tv, want@) == find_meta_in(tv.skip(i as int), want@),
        decreases n - i,
    {
        let (k, d) = table_get_index(t, i).unwrap();
        assert(tv.skip(i as int)[0] == tv[i as int]);
        assert(tv.skip(i as int).drop_first() =~= tv.skip(i + 1));
        if def_has_ctor(d, want) {
            return Some(k.clone());
        }
        i += 1;
    }
    assert(tv.skip(n as int).len() == 0);
    None
}

/// Search the parsed tables (types first) for a constructor with the
/// normalized name; its result type key.
pub fn find_meta(scheme: &Scheme, vectemplate: &str) -> (r: Option<String>)
    ensures
        r matches Some(s) ==> spec_find_meta(table_view(scheme.types), table_view(scheme.funcs), vectemplate@) == Some(s@),
        r is None ==> spec_find_meta(table_view(scheme.types), table_view(scheme.funcs), vectemplate@) is None,
{
    let want = normalized_name(vectemplate);
    match find_meta_table(&scheme.types, want.as_str()) {
        Some(m) => Some(m),
        None => find_meta_table(&scheme.funcs, want.as_str()),
    }
}

impl<'a> Resolver<'a> {
    pub fn new(scheme: &'a CodegenScheme) -> (r: Self)
        ensures
            *r.scheme == *scheme,
    {
        Resolver { scheme }
    }

    /// Type prefix + normalized name.
    pub fn full_type_name(&self, name: &str) -> (r: String)
        ensures
            r@ == spec_full_type_name(*self.scheme, name@),
    {
        let mut r = self.scheme.prefixes.type_.clone();
        let n = normalized_name(name);
        r.append(n.as_str());
        r
    }

    /// Type prefix + normalized bare name (`Err` on a bad dotted name).
    pub fn full_bare_type_name(&self, name: &str) -> (r: Result<String, String>)
        requires
            !bare_name_panics(name@),
        ensures
            match r {
                Ok(s) => spec_full_bare_type_name(*self.scheme, name@) == Ok::<Seq<char>, Seq<char>>(s@),
                Err(e) => spec_full_bare_type_name(*self.scheme, name@) == Err::<Seq<char>, Seq<char>>(e@),
            },
    {
        match normalized_bare_name(name) {
            Ok(b) => {
                let mut r = self.scheme.prefixes.type_.clone();
                r.append(b.as_str());
                Ok(r)
            },
            Err(e) => Err(e),
        }
    }

    /// Data prefix + normalized name.
    pub fn full_data_name(&self, name: &str) -> (r: String)
        ensures
            r@ == spec_full_data_name(*self.scheme, name@),
    {
        let mut r = self.scheme.prefixes.data.clone();
        let n = normalized_name(name);
        r.append(n.as_str());
        r
    }

    /// Apply the chosen name mapper; `None` exactly where it would panic.
    pub fn try_process(&self, p: Process, name: &str) -> (r: Option<Result<String, String>>)
        ensures
            r is None == process_panics(p, name@),
            r matches Some(res) ==> match res {
                Ok(s) => spec_process(*self.scheme, p, name@) == Ok::<Seq<char>, Seq<char>>(s@),
                Err(e) => spec_process(*self.scheme, p, name@) == Err::<Seq<char>, Seq<char>>(e@),
            },
    {
        match p {
            Process::FullType => Some(Ok(self.full_type_name(name))),
            Process::FullBareType => {
                let v = chars_of(name);
                if crate::parse::bare_name_panics_exec(&v) {
                    None
                } else {
                    Some(self.full_bare_type_name(name))
                }
            },
        }
    }

    /// Apply the chosen name mapper.
    pub fn process(&self, p: Process, name: &str) -> (r: Result<String, String>)
        requires
            !process_panics(p, name@),
        ensures
            match r {
                Ok(s) => spec_process(*self.scheme, p, name@) == Ok::<Seq<char>, Seq<char>>(s@),
                Err(e) => spec_process(*self.scheme, p, name@) == Err::<Seq<char>, Seq<char>>(e@),
            },
    {
        match p {
            Process::FullType => Ok(self.full_type_name(name)),
            Process::FullBareType => self.full_bare_type_name(name),
        }
    }

    /// `handleTemplate` with its panics made explicit (`None`): resolve `Vector<X>` (nested ones recursively),
    /// mapping the inner type with `process`; an inner lowercase name is
    /// looked up among the constructors parsed so far.
    pub fn try_handle_template(&self, name: &str, scheme_parsed: &Scheme, process: Process) -> (r: Option<Result<String, String>>)
        ensures
            r is None == handle_template_panics(*self.scheme, table_view(scheme_parsed.types), table_view(scheme_parsed.funcs), name@, process),
            r matches Some(res) ==> match res {
                Ok(s) => spec_handle_template(*self.scheme, table_view(scheme_parsed.types), table_view(scheme_parsed.funcs), name@, process) == Ok::<Seq<char>, Seq<char>>(s@),
                Err(e) => spec_handle_template(*self.scheme, table_view(scheme_parsed.types), table_view(scheme_parsed.funcs), name@, process) == Err::<Seq<char>, Seq<char>>(e@),
            },
        decreases name@.len(),
    {
        let nv = chars_of(name);
        let t = trimmed(&nv);
        let ts = string_of(&t);
        proof { lemma_trim_len(name@); }
        let (head, inner) = match split_outer_template(&t) {
            Some(p) => p,
            None => {
                let mut e = String::from_str("Bad template type: ");
                e.append(ts.as_str());
                return Some(Err(e));
            },
        };
        let inner_s = string_of(&inner);
        let resolved = if find_char_exec(&inner, '<').is_some() {
            if inner.len() < nv.len() {
                match self.try_handle_template(inner_s.as_str(), scheme_parsed, process) {
                    None => return None,
                    Some(Ok(nested)) => match self.try_process(process, nested.as_str()) {
                        None => return None,
                        Some(x) => x,
                    },
                    Some(Err(e)) => Err(e),
                }
            } else {
                Err(String::new())
            }
        } else if starts_upper_exec(&inner) || dotted_upper_exec(&inner) || self.scheme.is_builtin_type(inner_s.as_str()) {
            match self.try_process(process, inner_s.as_str()) {
                None => return None,
                Some(x) => x,
            }
        } else {
            match find_meta(scheme_parsed, inner_s.as_str()) {
                Some(meta) => match self.try_process(process, meta.as_str()) {
                    None => return None,
                    Some(x) => x,
                },
                None => {
                    let mut e = String::from_str("Bad vector param: ");
                    e.append(inner_s.as_str());
                    Err(e)
                },
            }
        };
        match resolved {
            Ok(r) => {
                let mut out = string_of(&head);
                out.append("<");
                out.append(r.as_str());
                out.append(">");
                Some(Ok(out))
            },
            Err(e) => Some(Err(e)),
        }
    }
    /// `handleTemplate`: resolve `Vector<X>` (nested ones recursively),
    /// mapping the inner type with `process`; an inner lowercase name is
    /// looked up among the constructors parsed so far.
    pub fn handle_template(&self, name: &str, scheme_parsed: &Scheme, process: Process) -> (r: Result<String, String>)
        requires
            !handle_template_panics(*self.scheme, table_view(scheme_parsed.types), table_view(scheme_parsed.funcs), name@, process),
        ensures
            match r {
                Ok(s) => spec_handle_template(*self.scheme, table_view(scheme_parsed.types), table_view(scheme_parsed.funcs), name@, process) == Ok::<Seq<char>, Seq<char>>(s@),
                Err(e) => spec_handle_template(*self.scheme, table_view(scheme_parsed.types), table_view(scheme_parsed.funcs), name@, process) == Err::<Seq<char>, Seq<char>>(e@),
            },
    {
        self.try_handle_template(name, scheme_parsed, process).unwrap()
    }

}

} // verus!
