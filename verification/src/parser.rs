//! The scheme parse: turns the input lines into populated type and function
//! tables, enum lines and warnings. Malformed lines are reported as
//! warnings and skipped, so one run reports every problem.

use vstd::prelude::*;
use vstd::utf8::encode_utf8;
use crate::config::CodegenScheme;
use crate::crc::{crc32, type_id as crc_type_id, format_id, drop_true_flags};
use crate::ir::{
    Constructor, CtorModel, Param, ParamModel, Scheme, SchemeModel, TypeDef, TypeDefModel,
    keys_distinct, table_entries, table_get_index, table_get_index_of, table_insert_full,
    table_len, table_new, table_view,
};
use crate::parse::{
    Class, CtorHeader, RawParam, bare_name_panics, header_view, in_class_exec, lower_first,
    normalized_bare_name, normalized_name, parse_ctor_header, parse_raw_param, run, run_exec,
    spec_normalized_bare_name, spec_normalized_name, split_once, upper_first,
};
use crate::parse_model::{
    PCtx, PPState, PState, cond_names, crc_synonyms, ctor_has_stored, ctor_line, def_has_data,
    enum_line, fail_with, finish_entry, finish_table, header_type_id,
    key_index, line_fold, line_step, lookup, make_ctor, p_init, pairs_insert, param_fold,
    param_step, pp_init, set_add, spec_class_name, spec_clean_line_for_crc, spec_comment_split,
    spec_normalize_result, table_add,
};
use crate::resolve::{Process, Resolver, spec_handle_template, handle_template_panics};
use crate::text::{
    ascii, at, chars_of, contains, drop_chars, drop_chars_exec, eq_chars, eq_str, extend,
    extend_str, find_char, find_char_exec, find_exec, hex8_exec, hex_min_exec, lower_char,
    map_char, map_char_exec, pair_views, parse_hex_u32_exec, push_chars, replace, replace_exec,
    rfind_char, rfind_char_exec, slice_copy, split_char_exec, str_eq, string_of,
    trim_start_char_exec, trimmed, upper, upper_char, views, contains_str, alpha,
};

verus! {

// ---------------------------------------------------------------------------
// Line preprocessing
// ---------------------------------------------------------------------------

/// Split at the first `//` of a line without `\n`.
fn comment_split(raw: &[char]) -> (r: Option<(Vec<char>, Vec<char>)>)
    ensures
        r matches Some(p) ==> spec_comment_split(raw@) == Some((p.0@, p.1@)),
        r is None ==> spec_comment_split(raw@) is None,
{
    proof { reveal_strlit("//"); }
    let n = raw.len();
    if find_char_exec(raw, '\n').is_some() {
        return None;
    }
    let slashes = chars_of("//");
    match find_exec(raw, &slashes) {
        Some(p) => {
            proof { crate::text::lemma_find_from(raw@, slashes@, 0); }
            let code = slice_copy(raw, 0, p);
            let cmt = slice_copy(raw, p + 2, n);
            assert(code@ =~= raw@.take(p as int));
            assert(cmt@ =~= raw@.skip(p + 2));
            Some((code, cmt))
        },
        None => None,
    }
}

fn crc_synonyms_exec(line: &[char], syns: &Vec<(String, String)>) -> (r: Vec<char>)
    ensures
        r@ == crc_synonyms(line@, pair_views(syns@)),
{
    let mut cur = slice_copy(line, 0, line.len());
    assert(line@.subrange(0, line@.len() as int) =~= line@);
    let mut i: usize = 0;
    while i < syns.len()
        invariant
            i <= syns@.len(),
            cur@ == crc_synonyms(line@, pair_views(syns@).take(i as int)),
        decreases syns.len() - i,
    {
        let mut f1 = chars_of(":");
        extend_str(&mut f1, syns[i].0.as_str());
        extend_str(&mut f1, " ");
        let mut t1 = chars_of(":");
        extend_str(&mut t1, syns[i].1.as_str());
        extend_str(&mut t1, " ");
        let a = replace_exec(&cur, &f1, &t1);
        let mut f2 = chars_of("?");
        extend_str(&mut f2, syns[i].0.as_str());
        extend_str(&mut f2, " ");
        let mut t2 = chars_of("?");
        extend_str(&mut t2, syns[i].1.as_str());
        extend_str(&mut t2, " ");
        cur = replace_exec(&a, &f2, &t2);
        proof {
            let ps = pair_views(syns@);
            assert(ps.take(i + 1).drop_last() =~= ps.take(i as int));
            assert(ps.take(i + 1).last() == ps[i as int]);
        }
        i += 1;
    }
    assert(pair_views(syns@).take(syns@.len() as int) =~= pair_views(syns@));
    cur
}

/// The exact string a constructor's CRC is computed over: name, raw params,
/// `= `, result; optional-true flag parameters removed; `<`/`>` as spaces;
/// one pass of double-space collapsing; when the line then ends in a space,
/// that space and one leading space are trimmed (a line with no trailing
/// space keeps its leading one); synonyms applied to parameter types;
/// `{`/`}` removed.
pub fn clean_line_for_crc(ctor_name: &str, params_raw: &str, result: &str, scheme: &CodegenScheme) -> (r: String)
    ensures
        r@ == spec_clean_line_for_crc(ctor_name@, params_raw@, result@, *scheme),
{
    let mut line0 = chars_of(ctor_name);
    extend_str(&mut line0, params_raw);
    extend_str(&mut line0, "= ");
    extend_str(&mut line0, result);
    let line1 = drop_true_flags(&line0);
    let a = map_char_exec(&line1, '<', ' ');
    let line2 = map_char_exec(&a, '>', ' ');
    let dbl = chars_of("  ");
    let one = chars_of(" ");
    let line3 = replace_exec(&line2, &dbl, &one);
    let s1 = if line3.len() > 0 && line3[0] == ' ' { slice_copy(&line3, 1, line3.len()) } else { slice_copy(&line3, 0, line3.len()) };
    proof {
        if line3@.len() > 0 && line3@[0] == ' ' { assert(s1@ =~= line3@.drop_first()); } else { assert(s1@ =~= line3@); }
    }
    let line4 = if s1.len() > 0 && s1[s1.len() - 1] == ' ' { slice_copy(&s1, 0, s1.len() - 1) } else { slice_copy(&line3, 0, line3.len()) };
    proof {
        if s1@.len() > 0 && s1@.last() == ' ' { assert(line4@ =~= s1@.drop_last()); } else { assert(line4@ =~= line3@); }
    }
    let line5 = crc_synonyms_exec(&line4, &scheme.synonyms);
    let line6 = drop_chars_exec(&line5, '{', '}');
    string_of(&line6)
}

// ---------------------------------------------------------------------------
// Names
// ---------------------------------------------------------------------------

/// First value paired with `key`.
fn lookup_exec(pairs: &Vec<(String, String)>, key: &str) -> (r: Option<String>)
    ensures
        r matches Some(v) ==> lookup(pair_views(pairs@), key@) == Some(v@),
        r is None ==> lookup(pair_views(pairs@), key@) is None,
{
    let mut i: usize = 0;
    let ghost pv = pair_views(pairs@);
    assert(pv.skip(0) =~= pv);
    while i < pairs.len()
        invariant
            i <= pairs@.len(),
            pv == pair_views(pairs@),
            lookup(pv, key@) == lookup(pv.skip(i as int), key@),
        decreases pairs.len() - i,
    {
        assert(pv.skip(i as int)[0] == pv[i as int]);
        assert(pv.skip(i as int).drop_first() =~= pv.skip(i + 1));
        if str_eq(pairs[i].0.as_str(), key) {
            return Some(pairs[i].1.clone());
        }
        i += 1;
    }
    None
}

pub(crate) fn upper_first_exec(v: &mut Vec<char>)
    ensures
        final(v)@ == upper_first(old(v)@),
{
    if v.len() > 0 {
        let c = upper_char(v[0]);
        v.set(0, c);
    }
}

fn lower_first_exec(v: &mut Vec<char>)
    ensures
        final(v)@ == lower_first(old(v)@),
{
    if v.len() > 0 {
        let c = lower_char(v[0]);
        v.set(0, c);
    }
}

/// Class-style and normalized name; `None` where slicing the first
/// character would fail.
fn class_name_exec(name: &[char]) -> (r: Option<(Vec<char>, Vec<char>)>)
    ensures
        r matches Some(p) ==> spec_class_name(name@) == Some((p.0@, p.1@)),
        r is None ==> spec_class_name(name@) is None,
{
    let n = name.len();
    match rfind_char_exec(name, '.') {
        Some(ind) => {
            proof { crate::text::lemma_rfind_char(name@, '.'); }
            let mut tail = slice_copy(name, ind + 1, n);
            assert(tail@ =~= name@.skip(ind + 1));
            if tail.len() == 0 || !ascii(tail[0]) {
                return None;
            }
            let mut cls = slice_copy(name, 0, ind);
            cls.push('_');
            upper_first_exec(&mut tail);
            extend(&mut cls, &tail);
            proof { reveal_strlit("_"); assert(cls@ =~= name@.take(ind as int) + "_"@ + upper_first(name@.skip(ind + 1))); }
            let norm = map_char_exec(name, '.', '_');
            Some((cls, norm))
        },
        None => {
            if n == 0 || !ascii(name[0]) {
                return None;
            }
            let mut cls = slice_copy(name, 0, n);
            assert(cls@ =~= name@);
            upper_first_exec(&mut cls);
            let same = slice_copy(name, 0, n);
            assert(same@ =~= name@);
            Some((cls, same))
        },
    }
}

/// Result type normalization: `(table key, boxed alias)`, or the error text.
fn normalize_result(restype_raw: &str, resolver: &Resolver<'_>, scheme_parsed: &Scheme) -> (r: Result<(String, String), String>)
    ensures
        match r {
            Ok(p) => spec_normalize_result(*resolver.scheme, table_view(scheme_parsed.types), table_view(scheme_parsed.funcs), restype_raw@)
                == Ok::<(Seq<char>, Seq<char>), Seq<char>>((p.0@, p.1@)),
            Err(e) => spec_normalize_result(*resolver.scheme, table_view(scheme_parsed.types), table_view(scheme_parsed.funcs), restype_raw@)
                == Err::<(Seq<char>, Seq<char>), Seq<char>>(e@),
        },
{
    let raw = chars_of(restype_raw);
    let restype: String = if find_char_exec(&raw, '<').is_some() {
        proof { lemma_full_type_never_panics(*resolver.scheme, table_view(scheme_parsed.types), table_view(scheme_parsed.funcs), restype_raw@); }
        match resolver.handle_template(restype_raw, scheme_parsed, Process::FullType) {
            Ok(r) => r,
            Err(e) => return Err(e),
        }
    } else {
        String::from_str(restype_raw)
    };
    let rv = chars_of(restype.as_str());
    let res_type = normalized_name(restype.as_str());
    let n = rv.len();
    match rfind_char_exec(&rv, '.') {
        Some(dot) => {
            proof { crate::text::lemma_rfind_char(rv@, '.'); }
            let ns = slice_copy(&rv, 0, dot);
            let mut tail = slice_copy(&rv, dot + 1, n);
            assert(tail@ =~= rv@.skip(dot + 1));
            if tail.len() == 0 || !upper(tail[0]) {
                let mut e = String::from_str("Bad result type name with dot: ");
                e.append(restype.as_str());
                return Err(e);
            }
            let mut key = map_char_exec(&ns, '.', '_');
            key.push('_');
            lower_first_exec(&mut tail);
            extend(&mut key, &tail);
            proof { reveal_strlit("_"); assert(key@ =~= map_char(rv@.take(dot as int), '.', '_') + "_"@ + lower_first(rv@.skip(dot + 1))); }
            Ok((string_of(&key), res_type))
        },
        None => {
            if n > 0 && upper(rv[0]) {
                let mut key = slice_copy(&rv, 0, n);
                assert(key@ =~= rv@);
                lower_first_exec(&mut key);
                Ok((string_of(&key), res_type))
            } else {
                let mut e = String::from_str("Bad result type name: ");
                e.append(restype.as_str());
                Err(e)
            }
        },
    }
}

/// Resolution with the plain type-name mapper never panics.
pub proof fn lemma_full_type_never_panics(
    cfg: CodegenScheme,
    types: Seq<(Seq<char>, TypeDefModel)>,
    funcs: Seq<(Seq<char>, TypeDefModel)>,
    name: Seq<char>,
)
    ensures
        !handle_template_panics(cfg, types, funcs, name, Process::FullType),
    decreases name.len(),
{
    let t = crate::text::trim(name);
    match crate::resolve::spec_split_outer_template(t) {
        None => {},
        Some((head, inner)) => {
            if find_char(inner, '<') is Some && inner.len() < name.len() {
                lemma_full_type_never_panics(cfg, types, funcs, inner);
            }
        },
    }
}

/// The id of a parsed header, or the mismatch warning.
fn header_type_id_exec(cfg: &CodegenScheme, h: &CtorHeader) -> (r: Result<u32, String>)
    ensures
        match r {
            Ok(v) => header_type_id(*cfg, header_view(*h)) == Ok::<u32, Seq<char>>(v),
            Err(w) => header_type_id(*cfg, header_view(*h)) == Err::<u32, Seq<char>>(w@),
        },
{
    let id: Vec<char> = match &h.id_hex {
        Some(x) => chars_of(x.as_str()),
        None => Vec::new(),
    };
    let typeid_hex = trim_start_char_exec(&id, '0');
    let cleaned = clean_line_for_crc(h.name.as_str(), h.params_raw.as_str(), h.result.as_str(), cfg);
    let crc = crc_type_id(cleaned.as_str());
    let full = hex8_exec(crc);
    let counted = trim_start_char_exec(&full, '0');
    if typeid_hex.len() > 0 {
        if !eq_chars(&typeid_hex, &counted) {
            let mut key = chars_of(h.name.as_str());
            key.push('#');
            extend(&mut key, &typeid_hex);
            let key_s = string_of(&key);
            proof { reveal_strlit("#"); assert(key@ =~= h.name@ + "#"@ + typeid_hex@); }
            if !contains_str(&cfg.type_id_exceptions, key_s.as_str()) {
                let mut w = String::from_str("Warning: counted ");
                push_chars(&mut w, &counted);
                w.append(" mismatch with provided ");
                push_chars(&mut w, &typeid_hex);
                w.append(" (");
                w.append(key_s.as_str());
                w.append(", ");
                w.append(cleaned.as_str());
                w.append(")");
                return Err(w);
            }
            match parse_hex_u32_exec(&typeid_hex) {
                Some(v) => Ok(v),
                None => Ok(0),
            }
        } else {
            match parse_hex_u32_exec(&typeid_hex) {
                Some(v) => Ok(v),
                None => Ok(crc),
            }
        }
    } else {
        Ok(crc)
    }
}

} // verus!

verus! {

// ---------------------------------------------------------------------------
// Tables
// ---------------------------------------------------------------------------

pub proof fn lemma_key_index(e: Seq<(String, TypeDef)>, key: Seq<char>)
    requires
        keys_distinct(e),
    ensures
        forall|i: int| 0 <= i < e.len() && e[i].0@ == key ==>
            key_index(e.map_values(|x: (String, TypeDef)| (x.0@, x.1@)), key) == Some(i),
        (forall|i: int| 0 <= i < e.len() ==> e[i].0@ != key) ==>
            key_index(e.map_values(|x: (String, TypeDef)| (x.0@, x.1@)), key) is None,
    decreases e.len(),
{
    if e.len() > 0 {
        let d = e.drop_last();
        assert(keys_distinct(d)) by {
            assert forall|i: int, j: int| 0 <= i < d.len() && 0 <= j < d.len() && i != j implies d[i].0@ != d[j].0@ by {
                assert(d[i] == e[i] && d[j] == e[j]);
            }
        }
        lemma_key_index(d, key);
        let v = e.map_values(|x: (String, TypeDef)| (x.0@, x.1@));
        assert(v.drop_last() =~= d.map_values(|x: (String, TypeDef)| (x.0@, x.1@)));
        assert forall|i: int| 0 <= i < e.len() && e[i].0@ == key implies key_index(v, key) == Some(i) by {
            if i < e.len() - 1 {
                assert(d[i] == e[i]);
                assert(e[e.len() - 1].0@ != key);
            } else {
                assert forall|j: int| 0 <= j < d.len() implies d[j].0@ != key by {
                    assert(d[j] == e[j]);
                }
            }
        }
        if forall|i: int| 0 <= i < e.len() ==> e[i].0@ != key {
            assert forall|j: int| 0 <= j < d.len() implies d[j].0@ != key by {
                assert(d[j] == e[j]);
            }
            assert(v.last().0 != key);
        }
    }
}

/// Append constructor `c` to the entry for `key` (created when missing),
/// setting the entry's boxed name.
fn table_add_exec(t: &mut indexmap::IndexMap<String, TypeDef>, key: String, boxed: String, c: Constructor)
    requires
        keys_distinct(table_entries(*old(t))),
    ensures
        keys_distinct(table_entries(*final(t))),
        table_view(*final(t)) == table_add(table_view(*old(t)), key@, boxed@, c@),
{
    let ghost e = table_entries(*t);
    proof { lemma_key_index(e, key@); }
    let placeholder = TypeDef {
        restype: key.clone(),
        boxed_name: boxed.clone(),
        ctors: Vec::new(),
        with_type: false,
        with_data: false,
        nullable: false,
    };
    let (idx, old_v) = table_insert_full(t, key.clone(), placeholder);
    let ghost e1 = table_entries(*t);
    assert(keys_distinct(e1)) by {
        assert forall|i: int, j: int| 0 <= i < e1.len() && 0 <= j < e1.len() && i != j implies e1[i].0@ != e1[j].0@ by {
            if old_v is Some {
                assert(e1[i].0 == e[i].0 && e1[j].0 == e[j].0);
            } else {
                if i < e.len() { assert(e1[i] == e[i]); }
                if j < e.len() { assert(e1[j] == e[j]); }
            }
        }
    }
    let newv = match old_v {
        Some(mut d) => {
            let ghost dc = d.ctors@;
            d.boxed_name = boxed;
            d.ctors.push(c);
            assert(d.ctors@.map_values(|x: Constructor| x@) =~= dc.map_values(|x: Constructor| x@).push(c@));
            d
        },
        None => {
            let mut cs: Vec<Constructor> = Vec::new();
            cs.push(c);
            assert(cs@.map_values(|x: Constructor| x@) =~= seq![c@]);
            TypeDef { restype: key.clone(), boxed_name: boxed, ctors: cs, with_type: false, with_data: false, nullable: false }
        },
    };
    let (idx2, _) = table_insert_full(t, key, newv);
    proof {
        assert(idx2 == idx) by {
            if idx2 != idx {
                assert(e1[idx2 as int].0@ == e1[idx as int].0@);
            }
        }
        let e2 = table_entries(*t);
        assert(keys_distinct(e2)) by {
            assert forall|i: int, j: int| 0 <= i < e2.len() && 0 <= j < e2.len() && i != j implies e2[i].0@ != e2[j].0@ by {
                assert(e2[i].0 == e1[i].0 && e2[j].0 == e1[j].0);
            }
        }
        let v = table_view(*t);
        let v0 = e.map_values(|x: (String, TypeDef)| (x.0@, x.1@));
        assert(v0 == table_view(*old(t)));
        assert(v =~= table_add(v0, key@, boxed@, c@));
    }
}

/// First index whose key is `key`.
pub open spec fn pair_index(p: Seq<(Seq<char>, Seq<char>)>, key: Seq<char>) -> Option<int>
    decreases p.len(),
{
    if p.len() == 0 {
        None
    } else if p[0].0 == key {
        Some(0)
    } else {
        match pair_index(p.drop_first(), key) {
            Some(i) => Some(i + 1),
            None => None,
        }
    }
}

pub proof fn lemma_pairs_insert(p: Seq<(Seq<char>, Seq<char>)>, key: Seq<char>, v: Seq<char>, i: int)
    requires
        0 <= i <= p.len(),
        forall|j: int| 0 <= j < i ==> p[j].0 != key,
        i < p.len() ==> p[i].0 == key,
    ensures
        pairs_insert(p, key, v) == if i < p.len() { p.update(i, (key, v)) } else { p.push((key, v)) },
    decreases p.len(),
{
    if p.len() > 0 && i > 0 {
        let q = p.drop_first();
        assert forall|j: int| 0 <= j < i - 1 implies q[j].0 != key by {
            assert(q[j] == p[j + 1]);
        }
        if i - 1 < q.len() {
            assert(q[i - 1] == p[i]);
        }
        lemma_pairs_insert(q, key, v, i - 1);
        if i < p.len() {
            assert(seq![p[0]] + q.update(i - 1, (key, v)) =~= p.update(i, (key, v)));
        } else {
            assert(seq![p[0]] + q.push((key, v)) =~= p.push((key, v)));
        }
    } else if p.len() == 0 {
        assert(seq![(key, v)] =~= p.push((key, v)));
    }
}

/// Set `key` to `v` in a pair list (first match replaced, else appended).
fn pairs_insert_exec(p: &mut Vec<(String, String)>, key: String, v: String)
    ensures
        pair_views(final(p)@) == pairs_insert(pair_views(old(p)@), key@, v@),
{
    let ghost pv = pair_views(p@);
    let mut i: usize = 0;
    while i < p.len()
        invariant
            i <= p@.len(),
            pv == pair_views(p@),
            pv == pair_views(old(p)@),
            forall|j: int| 0 <= j < i ==> pv[j].0 != key@,
        decreases p.len() - i,
    {
        if str_eq(p[i].0.as_str(), key.as_str()) {
            proof { lemma_pairs_insert(pv, key@, v@, i as int); }
            let ghost kv = key@;
            let ghost vv = v@;
            p.set(i, (key, v));
            assert(pair_views(p@) =~= pv.update(i as int, (kv, vv)));
            return;
        }
        i += 1;
    }
    proof { lemma_pairs_insert(pv, key@, v@, i as int); }
    let ghost kv = key@;
    let ghost vv = v@;
    p.push((key, v));
    assert(pair_views(p@) =~= pv.push((kv, vv)));
}

/// A constructor stores some parameter (executable).
fn ctor_has_stored_exec(c: &Constructor) -> (r: bool)
    ensures
        r == ctor_has_stored(c@),
{
    let mut j: usize = 0;
    while j < c.params.len()
        invariant
            j <= c.params@.len(),
            forall|k: int| 0 <= k < j ==> views(c.trivial_conditions@).contains(#[trigger] c.params@[k].name@)
                || views(c.bots_only_params@).contains(c.params@[k].name@),
        decreases c.params.len() - j,
    {
        let nm = c.params[j].name.as_str();
        if !contains_str(&c.trivial_conditions, nm) && !contains_str(&c.bots_only_params, nm) {
            assert(c@.params[j as int] == c.params@[j as int]@);
            assert(!c@.trivial_conditions.contains(c@.params[j as int].name) && !c@.bots_only_params.contains(c@.params[j as int].name));
            return true;
        }
        j += 1;
    }
    assert forall|k: int| 0 <= k < c@.params.len() implies !(!c@.trivial_conditions.contains(#[trigger] c@.params[k].name)
        && !c@.bots_only_params.contains(c@.params[k].name)) by {
        assert(c@.params[k] == c.params@[k]@);
    }
    false
}

fn def_has_data_exec(d: &TypeDef) -> (r: bool)
    ensures
        r == def_has_data(d@),
{
    let mut k: usize = 0;
    while k < d.ctors.len()
        invariant
            k <= d.ctors@.len(),
            forall|j: int| 0 <= j < k ==> !ctor_has_stored(#[trigger] d.ctors@[j]@),
        decreases d.ctors.len() - k,
    {
        if ctor_has_stored_exec(&d.ctors[k]) {
            assert(d@.ctors[k as int] == d.ctors@[k as int]@);
            return true;
        }
        k += 1;
    }
    assert forall|j: int| 0 <= j < d@.ctors.len() implies !ctor_has_stored(#[trigger] d@.ctors[j]) by {
        assert(d@.ctors[j] == d.ctors@[j]@);
    }
    false
}

/// Post-pass: `with_type`, `with_data` and `nullable` of every entry.
fn finish_table_exec(t: &mut indexmap::IndexMap<String, TypeDef>, cfg: &CodegenScheme)
    requires
        keys_distinct(table_entries(*old(t))),
    ensures
        keys_distinct(table_entries(*final(t))),
        table_view(*final(t)) == finish_table(*cfg, table_view(*old(t))),
{
    let n = table_len(t);
    let ghost v0 = table_view(*t);
    let mut i: usize = 0;
    while i < n
        invariant
            i <= n,
            n == table_entries(*t).len(),
            v0.len() == n,
            keys_distinct(table_entries(*t)),
            forall|j: int| 0 <= j < i ==> #[trigger] table_view(*t)[j] == finish_entry(*cfg, v0[j]),
            forall|j: int| i <= j < n ==> #[trigger] table_view(*t)[j] == v0[j],
        decreases n - i,
    {
        let ghost e = table_entries(*t);
        let ghost tvb = table_view(*t);
        assert(tvb[i as int] == v0[i as int]);
        assert(tvb[i as int] == (e[i as int].0@, e[i as int].1@));
        let (k, d) = table_get_index(t, i).unwrap();
        let key = k.clone();
        let with_type = d.ctors.len() > 1;
        let with_data = def_has_data_exec(d);
        let nullable = contains_str(&cfg.nullable, key.as_str());
        let placeholder = TypeDef {
            restype: String::new(),
            boxed_name: String::new(),
            ctors: Vec::new(),
            with_type: false,
            with_data: false,
            nullable: false,
        };
        let (idx, old_v) = table_insert_full(t, key.clone(), placeholder);
        assert(idx == i) by {
            if idx != i { assert(e[idx as int].0@ == e[i as int].0@); }
        }
        let mut dv = old_v.unwrap();
        dv.with_type = with_type;
        dv.with_data = with_data;
        dv.nullable = nullable;
        let ghost e1 = table_entries(*t);
        assert(keys_distinct(e1)) by {
            assert forall|a: int, b: int| 0 <= a < e1.len() && 0 <= b < e1.len() && a != b implies e1[a].0@ != e1[b].0@ by {
                assert(e1[a].0 == e[a].0 && e1[b].0 == e[b].0);
            }
        }
        let (idx2, _) = table_insert_full(t, key, dv);
        assert(idx2 == i) by {
            if idx2 != i { assert(e1[idx2 as int].0@ == e1[i as int].0@); }
        }
        proof {
            let e2 = table_entries(*t);
            assert(keys_distinct(e2)) by {
                assert forall|a: int, b: int| 0 <= a < e2.len() && 0 <= b < e2.len() && a != b implies e2[a].0@ != e2[b].0@ by {
                    assert(e2[a].0 == e1[a].0 && e2[b].0 == e1[b].0);
                }
            }
            assert forall|j: int| 0 <= j < i + 1 implies #[trigger] table_view(*t)[j] == finish_entry(*cfg, v0[j]) by {
                if j < i {
                    assert(table_view(*t)[j] == (e2[j].0@, e2[j].1@));
                    assert(e2[j] == e[j]);
                    assert(tvb[j] == table_view(*t)[j]);
                } else {
                    assert(table_view(*t)[j] == (e2[j].0@, e2[j].1@));
                }
            }
            assert forall|j: int| i + 1 <= j < n implies #[trigger] table_view(*t)[j] == v0[j] by {
                assert(e2[j] == e[j]);
                assert(tvb[j] == v0[j]);
                assert(tvb[j] == table_view(*t)[j]);
            }
        }
        i += 1;
    }
    assert(table_view(*t) =~= finish_table(*cfg, v0));
}

} // verus!

verus! {

// ---------------------------------------------------------------------------
// Parameter loop
// ---------------------------------------------------------------------------

/// Read-only context of one constructor's parameter loop.
pub struct ParamCtx<'b> {
    pub resolver: &'b Resolver<'b>,
    pub out: &'b Scheme,
    pub type_ctors: &'b Vec<(String, String)>,
    pub comments: &'b str,
    pub line: &'b str,
    pub name: &'b str,
    pub funcs_now: bool,
    pub read_write: bool,
}

impl<'b> ParamCtx<'b> {
    pub open spec fn model(&self) -> PCtx {
        PCtx {
            cfg: *self.resolver.scheme,
            types: table_view(self.out.types),
            funcs: table_view(self.out.funcs),
            type_ctors: pair_views(self.type_ctors@),
            comments: self.comments@,
            line: self.line@,
            name: self.name@,
            funcs_now: self.funcs_now,
            read_write: self.read_write,
        }
    }
}

/// State of one constructor's parameter loop.
pub struct ParamState {
    pub params: Vec<Param>,
    pub conditions: Vec<(String, u32)>,
    pub trivial: Vec<String>,
    pub has_flags: String,
    pub has_flags64: String,
    pub has_template: String,
    pub is_template: String,
    pub nullable_params: Vec<String>,
    pub nullable_vectors: Vec<String>,
    pub bots_only: Vec<String>,
    pub warnings: Vec<String>,
    pub notes: Vec<String>,
    pub failed: bool,
}

impl ParamState {
    pub open spec fn model(&self) -> PPState {
        PPState {
            params: self.params@.map_values(|p: Param| p@),
            conditions: crate::ir::cond_views(self.conditions@),
            trivial: views(self.trivial@),
            has_flags: self.has_flags@,
            has_flags64: self.has_flags64@,
            has_template: self.has_template@,
            is_template: self.is_template@,
            nullable_params: views(self.nullable_params@),
            nullable_vectors: views(self.nullable_vectors@),
            bots_only: views(self.bots_only@),
            warnings: views(self.warnings@),
            notes: views(self.notes@),
            failed: self.failed,
        }
    }
}

fn set_add_exec(v: &mut Vec<String>, x: &str)
    ensures
        views(final(v)@) == set_add(views(old(v)@), x@),
{
    if !contains_str(v, x) {
        let s = String::from_str(x);
        v.push(s);
        assert(views(v@) =~= views(old(v)@).push(x@));
    }
}

fn cond_has(conds: &Vec<(String, u32)>, name: &str) -> (r: bool)
    ensures
        r == cond_names(crate::ir::cond_views(conds@)).contains(name@),
{
    let ghost cn = cond_names(crate::ir::cond_views(conds@));
    let mut i: usize = 0;
    while i < conds.len()
        invariant
            i <= conds@.len(),
            cn == cond_names(crate::ir::cond_views(conds@)),
            cn.len() == conds@.len(),
            forall|j: int| 0 <= j < i ==> cn[j] != name@,
        decreases conds.len() - i,
    {
        assert(cn[i as int] == conds@[i as int].0@);
        if str_eq(conds[i].0.as_str(), name) {
            return true;
        }
        i += 1;
    }
    false
}

fn push_warning(st: &mut ParamState, w: String)
    ensures
        final(st).model() == fail_with(old(st).model(), w@),
{
    let ghost old_w = st.warnings@;
    st.warnings.push(w);
    st.failed = true;
    assert(views(st.warnings@) =~= views(old_w).push(w@));
}

fn bad_param_msg(ctx: &ParamCtx, token: &str) -> (r: String)
    ensures
        r@ == crate::parse_model::bad_param(ctx.model(), token@),
{
    let mut w = String::from_str("Bad param found: \"");
    w.append(token);
    w.append("\" in line: ");
    w.append(ctx.line);
    w
}

/// Text before the first `:`.
fn token_name_exec(token: &[char]) -> (r: Vec<char>)
    ensures
        r@ == crate::parse_model::token_name(token@),
{
    let n = token.len();
    match find_char_exec(token, ':') {
        Some(k) => {
            let r = slice_copy(token, 0, k);
            assert(r@ =~= token@.take(k as int));
            r
        },
        None => {
            let r = slice_copy(token, 0, n);
            assert(r@ =~= token@);
            r
        },
    }
}

/// Type key of a parameter type; `None` where it cannot be computed.
fn param_type_key_exec(ctx: &ParamCtx, ptype: &str) -> (r: Option<String>)
    ensures
        r is None == crate::parse_model::param_type_key_panics(ctx.model(), ptype@),
        r matches Some(k) ==> k@ == crate::parse_model::param_type_key(ctx.model(), ptype@),
{
    let normalized: String = if ctx.read_write {
        normalized_name(ptype)
    } else {
        let pv = chars_of(ptype);
        if crate::parse::bare_name_panics_exec(&pv) {
            return None;
        }
        match normalized_bare_name(ptype) {
            Ok(b) => b,
            Err(_) => String::from_str(ptype),
        }
    };
    match lookup_exec(ctx.type_ctors, normalized.as_str()) {
        Some(bare) => Some(bare),
        None => Some(normalized),
    }
}

fn step_template_use_exec(ctx: &ParamCtx, st: &mut ParamState, token: &[char], var: &str) -> (ok: bool)
    ensures
        ok == (crate::parse_model::step_template_use(ctx.model(), old(st).model(), token@, var@) is Some),
        ok ==> final(st).model() == crate::parse_model::step_template_use(ctx.model(), old(st).model(), token@, var@)->0,
{
    let token_s = string_of(token);
    if str_eq(st.has_template.as_str(), var) && st.has_template.unicode_len() > 0 {
        let pname = token_name_exec(token);
        let pn = string_of(&pname);
        st.is_template = pn.clone();
        let ghost old_p = st.params@;
        st.params.push(Param {
            name: pn,
            tl_type: String::from_str("TQueryType"),
            raw_tl_type: token_s,
            flag_bit: None,
            is_true_flag: false,
        });
        assert(st.params@.map_values(|p: Param| p@) =~= old_p.map_values(|p: Param| p@).push(st.params@.last()@));
        true
    } else {
        let mut w = String::from_str("Bad template param name: \"");
        w.append(token_s.as_str());
        w.append("\" in line: ");
        w.append(ctx.line);
        push_warning(st, w);
        true
    }
}

fn flags_type_exec(ctx: &ParamCtx) -> (r: String)
    ensures
        r@ == crate::parse_model::flags_type(ctx.model()),
{
    let owner = if ctx.funcs_now {
        ctx.resolver.full_type_name(ctx.name)
    } else {
        ctx.resolver.full_data_name(ctx.name)
    };
    let mut t = String::from_str("flags<");
    t.append(owner.as_str());
    t.append("::Flags>");
    t
}

fn step_flags_exec(ctx: &ParamCtx, st: &mut ParamState, token: &[char]) -> (ok: bool)
    ensures
        ok == (crate::parse_model::step_flags(ctx.model(), old(st).model(), token@) is Some),
        ok ==> final(st).model() == crate::parse_model::step_flags(ctx.model(), old(st).model(), token@)->0,
{
    proof { reveal_strlit("2"); }
    let pname = token_name_exec(token);
    let mut f2 = chars_of(st.has_flags.as_str());
    f2.push('2');
    assert(f2@ =~= st.has_flags@ + "2"@);
    if st.has_flags.unicode_len() > 0 && eq_chars(&pname, &f2) {
        st.has_flags64 = string_of(&pname);
        return true;
    }
    let pn = string_of(&pname);
    st.has_flags = pn.clone();
    let ptype = flags_type_exec(ctx);
    let ghost old_p = st.params@;
    st.params.push(Param {
        name: pn,
        tl_type: ptype,
        raw_tl_type: string_of(token),
        flag_bit: None,
        is_true_flag: false,
    });
    assert(st.params@.map_values(|p: Param| p@) =~= old_p.map_values(|p: Param| p@).push(st.params@.last()@));
    true
}

fn push_plain_exec(ctx: &ParamCtx, st: &mut ParamState, pname: &str, ptype: &str) -> (ok: bool)
    ensures
        ok == (crate::parse_model::push_plain(ctx.model(), old(st).model(), pname@, ptype@) is Some),
        ok ==> final(st).model() == crate::parse_model::push_plain(ctx.model(), old(st).model(), pname@, ptype@)->0,
{
    match param_type_key_exec(ctx, ptype) {
        None => false,
        Some(key) => {
            let ghost old_p = st.params@;
            st.params.push(Param {
                name: String::from_str(pname),
                tl_type: key,
                raw_tl_type: String::from_str(ptype),
                flag_bit: None,
                is_true_flag: false,
            });
            assert(st.params@.map_values(|p: Param| p@) =~= old_p.map_values(|p: Param| p@).push(st.params@.last()@));
            true
        },
    }
}

fn step_plain_exec(ctx: &ParamCtx, st: &mut ParamState, pname: &str, ty: &str) -> (ok: bool)
    ensures
        ok == (crate::parse_model::step_plain(ctx.model(), old(st).model(), pname@, ty@) is Some),
        ok ==> final(st).model() == crate::parse_model::step_plain(ctx.model(), old(st).model(), pname@, ty@)->0,
{
    let pn = crate::tl::param_notes(ctx.comments, pname);
    crate::tl::append_notes(&mut st.notes, pn);
    let bots_prm = crate::tl::is_bots_only_param(ctx.comments, pname);
    let nul_vec = !bots_prm && crate::tl::is_nullable_vector(ctx.comments, pname);
    let nul_prm = !bots_prm && !nul_vec && crate::tl::is_nullable_param(ctx.comments, pname);
    if bots_prm {
        set_add_exec(&mut st.bots_only, pname);
    }
    let tv = chars_of(ty);
    if find_char_exec(&tv, '<').is_some() {
        if nul_prm {
            let mut w = String::from_str("Vector param should not be nullable: \"");
            w.append(pname);
            w.append(":");
            w.append(ty);
            w.append("\" in line: ");
            w.append(ctx.line);
            push_warning(st, w);
            return true;
        }
        if nul_vec {
            set_add_exec(&mut st.nullable_vectors, pname);
        }
        let process = if ctx.read_write { Process::FullType } else { Process::FullBareType };
        match ctx.resolver.try_handle_template(ty, ctx.out, process) {
            None => false,
            Some(Err(e)) => {
                push_warning(st, e);
                true
            },
            Some(Ok(ptype)) => push_plain_exec(ctx, st, pname, ptype.as_str()),
        }
    } else if nul_vec {
        let mut w = String::from_str("Non-vector param should not be vector-nullable: \"");
        w.append(pname);
        w.append(":");
        w.append(ty);
        w.append("\" in line: ");
        w.append(ctx.line);
        push_warning(st, w);
        true
    } else {
        if nul_prm {
            set_add_exec(&mut st.nullable_params, pname);
        }
        push_plain_exec(ctx, st, pname, ty)
    }
}

fn push_flagged_exec(ctx: &ParamCtx, st: &mut ParamState, pname: &str, flag: &str, bit: u32, ptype: &str) -> (ok: bool)
    ensures
        ok == (crate::parse_model::push_flagged(ctx.model(), old(st).model(), pname@, flag@, bit, ptype@) is Some),
        ok ==> final(st).model() == crate::parse_model::push_flagged(ctx.model(), old(st).model(), pname@, flag@, bit, ptype@)->0,
{
    let is64 = str_eq(flag, st.has_flags64.as_str());
    if is64 && bit > u32::MAX - 32 {
        return false;
    }
    let bit_val: u32 = if is64 { bit + 32 } else { bit };
    let seen = cond_has(&st.conditions, pname);
    if !seen {
        let ghost old_c = st.conditions@;
        st.conditions.push((String::from_str(pname), bit_val));
        assert(crate::ir::cond_views(st.conditions@) =~= crate::ir::cond_views(old_c).push((pname@, bit_val)));
        if str_eq(ptype, "true") {
            set_add_exec(&mut st.trivial, pname);
        }
    }
    match param_type_key_exec(ctx, ptype) {
        None => false,
        Some(key) => {
            let is_true = contains_str(&st.trivial, pname);
            let ghost old_p = st.params@;
            st.params.push(Param {
                name: String::from_str(pname),
                tl_type: key,
                raw_tl_type: String::from_str(ptype),
                flag_bit: Some(bit_val),
                is_true_flag: is_true,
            });
            assert(st.params@.map_values(|p: Param| p@) =~= old_p.map_values(|p: Param| p@).push(st.params@.last()@));
            true
        },
    }
}

fn step_flagged_exec(ctx: &ParamCtx, st: &mut ParamState, token: &str, pname: &str, flag: &str, bit: u32, inner: &str) -> (ok: bool)
    ensures
        ok == (crate::parse_model::step_flagged(ctx.model(), old(st).model(), token@, pname@, flag@, bit, inner@) is Some),
        ok ==> final(st).model() == crate::parse_model::step_flagged(ctx.model(), old(st).model(), token@, pname@, flag@, bit, inner@)->0,
{
    if !str_eq(flag, st.has_flags.as_str()) && !str_eq(flag, st.has_flags64.as_str()) {
        let w = bad_param_msg(ctx, token);
        push_warning(st, w);
        return true;
    }
    let iv = chars_of(inner);
    if find_char_exec(&iv, '<').is_some() {
        let process = if ctx.read_write { Process::FullType } else { Process::FullBareType };
        match ctx.resolver.try_handle_template(inner, ctx.out, process) {
            None => false,
            Some(Err(e)) => {
                push_warning(st, e);
                true
            },
            Some(Ok(ptype)) => push_flagged_exec(ctx, st, pname, flag, bit, ptype.as_str()),
        }
    } else {
        push_flagged_exec(ctx, st, pname, flag, bit, inner)
    }
}

/// One parameter token; `false` where parsing cannot proceed.
fn param_step_exec(ctx: &ParamCtx, st: &mut ParamState, token: &[char]) -> (ok: bool)
    ensures
        ok == (param_step(ctx.model(), old(st).model(), token@) is Some),
        ok ==> final(st).model() == param_step(ctx.model(), old(st).model(), token@)->0,
{
    let t = trimmed(token);
    if st.failed || t.len() == 0 {
        return true;
    }
    let token_s = string_of(token);
    let n = token.len();
    if n >= 2 && token[0] == '{' && token[n - 1] == '}' {
        let inner = slice_copy(token, 1, n - 1);
        match crate::parse::split_once_exec(&inner, ':') {
            Some((var, bound)) => {
                let mut all_alpha = true;
                let mut i: usize = 0;
                while i < var.len()
                    invariant
                        i <= var@.len(),
                        all_alpha == forall|j: int| 0 <= j < i ==> crate::text::is_ascii_alpha(#[trigger] var@[j]),
                    decreases var.len() - i,
                {
                    if !alpha(var[i]) {
                        all_alpha = false;
                    }
                    i += 1;
                }
                if eq_str(&bound, "Type") && all_alpha {
                    st.has_template = string_of(&var);
                    return true;
                }
            },
            None => {},
        }
        let w = bad_param_msg(ctx, token_s.as_str());
        push_warning(st, w);
        return true;
    }
    match parse_raw_param(token_s.as_str()) {
        None => {
            let w = bad_param_msg(ctx, token_s.as_str());
            push_warning(st, w);
            true
        },
        Some(rp) => match rp {
            RawParam::TemplateDecl { var, bound } => {
                if str_eq(bound.as_str(), "Type") {
                    st.has_template = var;
                } else {
                    let w = bad_param_msg(ctx, token_s.as_str());
                    push_warning(st, w);
                }
                true
            },
            RawParam::TemplateUse(var) => step_template_use_exec(ctx, st, token, var.as_str()),
            RawParam::Flags => step_flags_exec(ctx, st, token),
            RawParam::Plain { name, ty } => step_plain_exec(ctx, st, name.as_str(), ty.as_str()),
            RawParam::Flagged { name, flag, bit, inner } => step_flagged_exec(ctx, st, token_s.as_str(), name.as_str(), flag.as_str(), bit, inner.as_str()),
        },
    }
}

} // verus!

verus! {

// ---------------------------------------------------------------------------
// Constructor lines and the line loop
// ---------------------------------------------------------------------------

pub proof fn lemma_param_fold_none(ctx: PCtx, tokens: Seq<Seq<char>>, k: int, st0: PPState)
    requires
        0 <= k <= tokens.len(),
        param_fold(ctx, tokens.take(k), st0) is None,
    ensures
        param_fold(ctx, tokens, st0) is None,
    decreases tokens.len() - k,
{
    if k < tokens.len() {
        assert(tokens.take(k + 1).drop_last() =~= tokens.take(k));
        lemma_param_fold_none(ctx, tokens, k + 1, st0);
    } else {
        assert(tokens.take(k) =~= tokens);
    }
}

pub proof fn lemma_line_fold_none(cfg: CodegenScheme, lines: Seq<Seq<char>>, k: int)
    requires
        0 <= k <= lines.len(),
        line_fold(cfg, lines.take(k)) is None,
    ensures
        line_fold(cfg, lines) is None,
    decreases lines.len() - k,
{
    if k < lines.len() {
        assert(lines.take(k + 1).drop_last() =~= lines.take(k));
        lemma_line_fold_none(cfg, lines, k + 1);
    } else {
        assert(lines.take(k) =~= lines);
    }
}

/// State of the line loop.
pub struct LineState {
    pub out: Scheme,
    pub funcs_now: bool,
    pub acc: String,
    pub type_ctors: Vec<(String, String)>,
    pub notes: Vec<String>,
}

impl LineState {
    pub open spec fn model(&self) -> PState {
        PState {
            types: table_view(self.out.types),
            funcs: table_view(self.out.funcs),
            warnings: views(self.out.warnings@),
            enums: views(self.out.enums@),
            funcs_now: self.funcs_now,
            acc: self.acc@,
            type_ctors: pair_views(self.type_ctors@),
            notes: views(self.notes@),
        }
    }

    pub open spec fn wf(&self) -> bool {
        keys_distinct(table_entries(self.out.types)) && keys_distinct(table_entries(self.out.funcs))
    }
}

/// Run the parameter loop over `tokens`.
fn param_loop(ctx: &ParamCtx, st: &mut ParamState, tokens: &Vec<Vec<char>>) -> (ok: bool)
    ensures
        ok == (param_fold(ctx.model(), tokens@.map_values(|v: Vec<char>| v@), old(st).model()) is Some),
        ok ==> final(st).model() == param_fold(ctx.model(), tokens@.map_values(|v: Vec<char>| v@), old(st).model())->0,
{
    let ghost tv = tokens@.map_values(|v: Vec<char>| v@);
    let ghost st0 = st.model();
    let mut j: usize = 0;
    assert(tv.take(0) =~= Seq::<Seq<char>>::empty());
    while j < tokens.len()
        invariant
            j <= tokens@.len(),
            tv == tokens@.map_values(|v: Vec<char>| v@),
            st0 == old(st).model(),
            param_fold(ctx.model(), tv.take(j as int), st0) == Some(st.model()),
        decreases tokens.len() - j,
    {
        assert(tv.take(j + 1).drop_last() =~= tv.take(j as int));
        assert(tv.take(j + 1).last() == tokens@[j as int]@);
        if !param_step_exec(ctx, st, &tokens[j]) {
            proof { lemma_param_fold_none(ctx.model(), tv, j + 1, st0); }
            return false;
        }
        j += 1;
    }
    assert(tv.take(tokens@.len() as int) =~= tv);
    true
}

/// A constructor line after its comments were taken.
fn ctor_line_exec(resolver: &Resolver, ls: &mut LineState, line: &str, h: &CtorHeader, comments: &str) -> (ok: bool)
    requires
        old(ls).wf(),
    ensures
        ok == (ctor_line(*resolver.scheme, old(ls).model(), line@, header_view(*h), comments@) is Some),
        ok ==> final(ls).model() == ctor_line(*resolver.scheme, old(ls).model(), line@, header_view(*h), comments@)->0,
        final(ls).wf(),
        final(ls).out.layer == old(ls).out.layer,
        final(ls).out.input_names == old(ls).out.input_names,
{
    let cfg = resolver.scheme;
    let ln = crate::tl::line_notes(comments);
    crate::tl::append_notes(&mut ls.notes, ln);
    if crate::tl::is_bots_only_line(comments) || crate::tl::is_mobile_only_line(comments) {
        return true;
    }
    let renamed: String = match lookup_exec(&cfg.renamed_types, h.name.as_str()) {
        Some(n) => n,
        None => h.name.clone(),
    };
    let rv = chars_of(renamed.as_str());
    let (class_v, name_v) = match class_name_exec(&rv) {
        Some(p) => p,
        None => return false,
    };
    let type_id = match header_type_id_exec(cfg, h) {
        Ok(v) => v,
        Err(w) => {
            let ghost ow = ls.out.warnings@;
            ls.out.warnings.push(w);
            assert(views(ls.out.warnings@) =~= views(ow).push(w@));
            return true;
        },
    };
    let (res_key, boxed_alias) = match normalize_result(h.result.as_str(), resolver, &ls.out) {
        Ok(p) => p,
        Err(e) => {
            let ghost ow = ls.out.warnings@;
            ls.out.warnings.push(e);
            assert(views(ls.out.warnings@) =~= views(ow).push(e@));
            return true;
        },
    };
    if crate::parse::bare_name_panics_exec(&name_v) {
        return false;
    }
    let name = string_of(&name_v);
    let bare_name = match normalized_bare_name(name.as_str()) {
        Ok(b) => b,
        Err(_) => name.clone(),
    };
    let full_name = resolver.full_type_name(name.as_str());
    let full_data_name = resolver.full_data_name(name.as_str());
    let read_write = cfg.read_write_section();
    let pv = chars_of(h.params_raw.as_str());
    let pt = trimmed(&pv);
    let tokens = split_char_exec(&pt, ' ');
    let mut w: Vec<String> = Vec::new();
    std::mem::swap(&mut w, &mut ls.out.warnings);
    let ghost model0 = ls.model();
    let mut st = ParamState {
        params: Vec::new(),
        conditions: Vec::new(),
        trivial: Vec::new(),
        has_flags: String::new(),
        has_flags64: String::new(),
        has_template: String::new(),
        is_template: String::new(),
        nullable_params: Vec::new(),
        nullable_vectors: Vec::new(),
        bots_only: Vec::new(),
        warnings: w,
        notes: Vec::new(),
        failed: false,
    };
    assert(st.model() =~= pp_init(old(ls).model().warnings));
    let ok = {
        let ctx = ParamCtx {
            resolver,
            out: &ls.out,
            type_ctors: &ls.type_ctors,
            comments,
            line,
            name: name.as_str(),
            funcs_now: ls.funcs_now,
            read_write,
        };
        assert(ctx.model().types == old(ls).model().types);
        param_loop(&ctx, &mut st, &tokens)
    };
    if !ok {
        std::mem::swap(&mut st.warnings, &mut ls.out.warnings);
        return false;
    }
    std::mem::swap(&mut st.warnings, &mut ls.out.warnings);
    let mut pnotes: Vec<String> = Vec::new();
    std::mem::swap(&mut pnotes, &mut st.notes);
    crate::tl::append_notes(&mut ls.notes, pnotes);
    let mut el = String::from_str("\t");
    let idp = cfg.id_prefix();
    el.append(idp.as_str());
    el.append(name.as_str());
    el.append(" = 0x");
    let hx = hex_min_exec(type_id);
    push_chars(&mut el, &hx);
    let ghost oe = ls.out.enums@;
    ls.out.enums.push(el);
    assert(views(ls.out.enums@) =~= views(oe).push(el@));
    if st.failed {
        return true;
    }
    if st.is_template.unicode_len() == 0 && str_eq(res_key.as_str(), "X") {
        let mut m = String::from_str("Bad response type \"X\" in \"");
        m.append(name.as_str());
        m.append("\" in line: ");
        m.append(line);
        let ghost ow = ls.out.warnings@;
        ls.out.warnings.push(m);
        assert(views(ls.out.warnings@) =~= views(ow).push(m@));
        return true;
    }
    let is_template = st.is_template.unicode_len() > 0;
    let c = Constructor {
        name: name.clone(),
        tl_name: h.name.clone(),
        alias_name: string_of(&class_v),
        bare_name,
        full_name,
        full_data_name,
        type_id,
        params: st.params,
        has_flags: st.has_flags.unicode_len() > 0,
        has_flags64: st.has_flags64.unicode_len() > 0,
        flags_name: st.has_flags,
        flags64_name: st.has_flags64,
        template_param: st.is_template,
        template_var: st.has_template.clone(),
        conditions: st.conditions,
        trivial_conditions: st.trivial,
        is_template,
        has_template: st.has_template.unicode_len() > 0,
        nullable_params: st.nullable_params,
        nullable_vectors: st.nullable_vectors,
        bots_only_params: st.bots_only,
    };
    if ls.funcs_now {
        table_add_exec(&mut ls.out.funcs, res_key, boxed_alias, c);
    } else if is_template {
        let mut m = String::from_str("Template types not allowed: \"");
        m.append(res_key.as_str());
        m.append("\" in line: ");
        m.append(line);
        let ghost ow = ls.out.warnings@;
        ls.out.warnings.push(m);
        assert(views(ls.out.warnings@) =~= views(ow).push(m@));
    } else {
        table_add_exec(&mut ls.out.types, res_key.clone(), boxed_alias, c);
        pairs_insert_exec(&mut ls.type_ctors, name, res_key);
    }
    true
}

/// One input line; `false` where parsing cannot proceed.
fn line_step_exec(resolver: &Resolver, ls: &mut LineState, raw: &str) -> (ok: bool)
    requires
        old(ls).wf(),
    ensures
        ok == (line_step(*resolver.scheme, old(ls).model(), raw@) is Some),
        ok ==> final(ls).model() == line_step(*resolver.scheme, old(ls).model(), raw@)->0,
        final(ls).wf(),
        final(ls).out.layer == old(ls).out.layer,
        final(ls).out.input_names == old(ls).out.input_names,
{
    let cfg = resolver.scheme;
    let rv = chars_of(raw);
    let split = comment_split(&rv);
    let (line_v, comment_v, is_comment_line) = match split {
        Some((code, cmt)) => (code, cmt, true),
        None => {
            let n = rv.len();
            let l = slice_copy(&rv, 0, n);
            assert(l@ =~= rv@);
            (l, Vec::new(), false)
        },
    };
    let fmark = chars_of("---functions---");
    if find_exec(&line_v, &fmark).is_some() {
        ls.funcs_now = true;
        return true;
    }
    let tmark = chars_of("---types---");
    if find_exec(&line_v, &tmark).is_some() {
        ls.funcs_now = false;
        return true;
    }
    let lt = trimmed(&line_v);
    if lt.len() == 0 {
        if !is_comment_line {
            ls.acc = String::new();
        } else if comment_v.len() > 0 {
            ls.acc.append(" ");
            push_chars(&mut ls.acc, &comment_v);
        }
        return true;
    }
    let lts = string_of(&lt);
    if contains_str(&cfg.skip, lts.as_str()) {
        return true;
    }
    let line = string_of(&line_v);
    match parse_ctor_header(line.as_str()) {
        None => {
            let mut m = String::from_str("Bad line found: ");
            m.append(line.as_str());
            let ghost ow = ls.out.warnings@;
            ls.out.warnings.push(m);
            assert(views(ls.out.warnings@) =~= views(ow).push(m@));
            true
        },
        Some(h) => {
            let mut comments = String::new();
            std::mem::swap(&mut comments, &mut ls.acc);
            ctor_line_exec(resolver, ls, line.as_str(), &h, comments.as_str())
        },
    }
}

/// Parse result: the line loop, then the derived flags of every entry.
pub open spec fn spec_parse_inputs(lines: Seq<Seq<char>>, layer: u32, names: Seq<Seq<char>>, cfg: CodegenScheme) -> Option<SchemeModel> {
    match line_fold(cfg, lines) {
        None => None,
        Some(st) => Some(SchemeModel {
            layer,
            input_names: names,
            types: finish_table(cfg, st.types),
            funcs: finish_table(cfg, st.funcs),
            warnings: st.warnings,
            enums: st.enums,
        }),
    }
}

/// Model of a scheme.
pub open spec fn scheme_view(s: Scheme) -> SchemeModel {
    SchemeModel {
        layer: s.layer,
        input_names: views(s.input_names@),
        types: table_view(s.types),
        funcs: table_view(s.funcs),
        warnings: views(s.warnings@),
        enums: views(s.enums@),
    }
}

fn copy_strings(v: &Vec<String>) -> (r: Vec<String>)
    ensures
        views(r@) == views(v@),
{
    let mut r: Vec<String> = Vec::new();
    let mut i: usize = 0;
    while i < v.len()
        invariant
            i <= v@.len(),
            views(r@) == views(v@).take(i as int),
        decreases v.len() - i,
    {
        let ghost or = r@;
        r.push(v[i].clone());
        assert(views(r@) =~= views(or).push(v@[i as int]@));
        assert(views(v@).take(i + 1) =~= views(v@).take(i as int).push(v@[i as int]@));
        i += 1;
    }
    assert(views(v@).take(v@.len() as int) =~= views(v@));
    r
}

/// Full parse; `None` exactly on the inputs where parsing cannot proceed
/// (a name whose first character cannot be sliced, a bare name that cannot
/// be normalized, a flag bit that overflows).
pub fn try_parse_inputs(inputs: &crate::tl::TlInputs, scheme: &CodegenScheme) -> (r: Option<Scheme>)
    ensures
        r is None == (spec_parse_inputs(views(inputs.lines@), inputs.layer, views(inputs.names@), *scheme) is None),
        r matches Some(s) ==> spec_parse_inputs(views(inputs.lines@), inputs.layer, views(inputs.names@), *scheme) == Some(scheme_view(s)),
{
    match try_parse_inputs_noting(inputs, scheme) {
        Some((s, _)) => Some(s),
        None => None,
    }
}

/// Diagnostics of the comment-tag checks over a whole parse, in the order
/// the checks run; `None` where the parse cannot proceed.
pub open spec fn spec_parse_notes(lines: Seq<Seq<char>>, cfg: CodegenScheme) -> Option<Seq<Seq<char>>> {
    match line_fold(cfg, lines) {
        None => None,
        Some(st) => Some(st.notes),
    }
}

/// Full parse that also hands back the diagnostics of the comment-tag
/// checks (`WARNING: Found "<ending>" in "<text>"`), in check order, for the
/// caller to report; `None` exactly where `try_parse_inputs` gives `None`.
pub fn try_parse_inputs_noting(inputs: &crate::tl::TlInputs, scheme: &CodegenScheme) -> (r: Option<(Scheme, Vec<String>)>)
    ensures
        r is None == (spec_parse_inputs(views(inputs.lines@), inputs.layer, views(inputs.names@), *scheme) is None),
        r matches Some((s, n)) ==> {
            &&& spec_parse_inputs(views(inputs.lines@), inputs.layer, views(inputs.names@), *scheme) == Some(scheme_view(s))
            &&& spec_parse_notes(views(inputs.lines@), *scheme) == Some(views(n@))
        },
{
    let resolver = Resolver::new(scheme);
    let mut ls = LineState {
        out: Scheme {
            layer: inputs.layer,
            input_names: copy_strings(&inputs.names),
            types: table_new(),
            funcs: table_new(),
            warnings: Vec::new(),
            enums: Vec::new(),
        },
        funcs_now: false,
        acc: String::new(),
        type_ctors: Vec::new(),
        notes: Vec::new(),
    };
    let ghost lines = views(inputs.lines@);
    assert(ls.model() =~= p_init());
    let mut i: usize = 0;
    while i < inputs.lines.len()
        invariant
            i <= inputs.lines@.len(),
            lines == views(inputs.lines@),
            ls.wf(),
            *resolver.scheme == *scheme,
            ls.out.layer == inputs.layer,
            views(ls.out.input_names@) == views(inputs.names@),
            line_fold(*scheme, lines.take(i as int)) == Some(ls.model()),
        decreases inputs.lines.len() - i,
    {
        assert(lines.take(i + 1).drop_last() =~= lines.take(i as int));
        assert(lines.take(i + 1).last() == inputs.lines@[i as int]@);
        if !line_step_exec(&resolver, &mut ls, inputs.lines[i].as_str()) {
            proof { lemma_line_fold_none(*scheme, lines, i + 1); }
            return None;
        }
        i += 1;
    }
    assert(lines.take(lines.len() as int) =~= lines);
    finish_table_exec(&mut ls.out.types, scheme);
    finish_table_exec(&mut ls.out.funcs, scheme);
    Some((ls.out, ls.notes))
}

/// Full parse loop: the type and function tables (in first-seen order),
/// enum lines and warnings for all input lines, then the derived
/// `with_type` / `with_data` / `nullable` flags of every entry.
pub fn parse_inputs(inputs: &crate::tl::TlInputs, scheme: &CodegenScheme) -> (r: Scheme)
    requires
        spec_parse_inputs(views(inputs.lines@), inputs.layer, views(inputs.names@), *scheme) is Some,
    ensures
        spec_parse_inputs(views(inputs.lines@), inputs.layer, views(inputs.names@), *scheme) == Some(scheme_view(r)),
{
    try_parse_inputs(inputs, scheme).unwrap()
}

} // verus!
