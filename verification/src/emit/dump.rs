//! `-dump_to_text.h/.cpp`: one text serializer per constructor (a staged
//! state machine that prints each field), the serializer table, three
//! hand-written serializers and the `DumpToTextType` driver. Written only
//! when a dump-to-text output is configured.

use vstd::prelude::*;
use crate::config::CodegenScheme;
use crate::emit::gen::{first_pos, keys_of, lemma_first_pos};
use crate::emit::{quoted_names, quoted_names_exec};
use crate::ir::{Constructor, CtorModel, ParamModel, Scheme, SchemeModel, TypeDef, TypeDefModel, cond_views, table_entries, table_get_index, table_get_index_of, table_len, table_view};
use crate::parse::{Class, in_class, lemma_run, run, run_exec};
use crate::parser::scheme_view;
use crate::text::{
    chars_of, contains_str, dec, dec_nat, dec_string, dec_usize, eq_chars, is_ascii_upper, replace,
    replace_exec, slice_copy, starts_with, starts_with_exec, str_eq, string_of, upper, views,
};
use indexmap::IndexMap;

verus! {

// ---------------------------------------------------------------------------
// Type patterns
// ---------------------------------------------------------------------------

/// `^[Vv]ector<MTP([A-Za-z0-9._]+)>`: the element name of a prefixed vector
/// type.
pub open spec fn vector_mtp(v: Seq<char>) -> Option<Seq<char>> {
    if v.len() >= 10 && (v[0] == 'v' || v[0] == 'V') && v.subrange(1, 10) == "ector<MTP"@ {
        let e = 10 + run(v, 10, Class::Name);
        if e > 10 && e < v.len() && v[e] == '>' { Some(v.subrange(10, e)) } else { None }
    } else {
        None
    }
}

fn vector_mtp_exec(v: &str) -> (r: Option<String>)
    ensures
        r matches Some(s) ==> vector_mtp(v@) == Some(s@),
        r is None ==> vector_mtp(v@) is None,
{
    let s = chars_of(v);
    if s.len() < 10 || !(s[0] == 'v' || s[0] == 'V') {
        return None;
    }
    let mid = slice_copy(&s, 1, 10);
    let lit = chars_of("ector<MTP");
    if !eq_chars(&mid, &lit) {
        return None;
    }
    let w = run_exec(&s, 10, &Class::Name);
    let e = 10 + w;
    if w > 0 && e < s.len() && s[e] == '>' {
        let inner = slice_copy(&s, 10, e);
        Some(string_of(&inner))
    } else {
        None
    }
}

/// `^[A-Z]`
pub open spec fn upper_start(s: Seq<char>) -> bool {
    s.len() > 0 && is_ascii_upper(s[0])
}

fn upper_start_exec(s: &str) -> (r: bool)
    ensures
        r == upper_start(s@),
{
    let v = chars_of(s);
    v.len() > 0 && upper(v[0])
}

// ---------------------------------------------------------------------------
// Boxed names
// ---------------------------------------------------------------------------

/// `name` is the boxed name of a type, or the class-style name of one of
/// its constructors, in the table.
pub open spec fn table_has_boxed(t: Seq<(Seq<char>, TypeDefModel)>, name: Seq<char>) -> bool {
    exists|i: int| 0 <= i < t.len() && (
        (#[trigger] t[i]).1.boxed_name == name
        || exists|j: int| 0 <= j < t[i].1.ctors.len() && (#[trigger] t[i].1.ctors[j]).alias_name == name)
}

/// `name` is a boxed or class-style name anywhere in the scheme.
pub open spec fn is_boxed(sm: SchemeModel, name: Seq<char>) -> bool {
    table_has_boxed(sm.types, name) || table_has_boxed(sm.funcs, name)
}

fn table_has_boxed_exec(m: &IndexMap<String, TypeDef>, name: &str) -> (r: bool)
    ensures
        r == table_has_boxed(table_view(*m), name@),
{
    let ghost t = table_view(*m);
    let n = table_len(m);
    let mut i: usize = 0;
    while i < n
        invariant
            i <= n,
            n == t.len(),
            t == table_view(*m),
            forall|k: int| 0 <= k < i ==> !((#[trigger] t[k]).1.boxed_name == name@
                || exists|j: int| 0 <= j < t[k].1.ctors.len() && (#[trigger] t[k].1.ctors[j]).alias_name == name@),
        decreases n - i,
    {
        let (_, def) = table_get_index(m, i).unwrap();
        assert(t[i as int].1 == def@);
        if str_eq(def.boxed_name.as_str(), name) {
            assert(table_has_boxed(t, name@));
            return true;
        }
        let mut j: usize = 0;
        while j < def.ctors.len()
            invariant
                j <= def.ctors@.len(),
                i < n,
                n == t.len(),
                t == table_view(*m),
                t[i as int].1 == def@,
                def@.boxed_name != name@,
                forall|q: int| 0 <= q < j ==> (#[trigger] def@.ctors[q]).alias_name != name@,
            decreases def.ctors.len() - j,
        {
            assert(def@.ctors[j as int] == def.ctors@[j as int]@);
            if str_eq(def.ctors[j].alias_name.as_str(), name) {
                assert(t[i as int].1.ctors[j as int].alias_name == name@);
                assert(table_has_boxed(t, name@));
                return true;
            }
            j += 1;
        }
        assert(!(t[i as int].1.boxed_name == name@
            || exists|q: int| 0 <= q < t[i as int].1.ctors.len() && (#[trigger] t[i as int].1.ctors[q]).alias_name == name@));
        i += 1;
    }
    false
}

fn is_boxed_exec(scheme: &Scheme, name: &str) -> (r: bool)
    ensures
        r == is_boxed(scheme_view(*scheme), name@),
{
    table_has_boxed_exec(&scheme.types, name) || table_has_boxed_exec(&scheme.funcs, name)
}

/// Position of the type named `name` in the type table.
fn lookup_type(scheme: &Scheme, name: &str) -> (r: Option<usize>)
    ensures
        r matches Some(i) ==> i < table_view(scheme.types).len()
            && first_pos(keys_of(table_view(scheme.types)), name@) == Some(i as int),
        r is None ==> first_pos(keys_of(table_view(scheme.types)), name@) is None,
{
    let ghost t = table_view(scheme.types);
    let ghost keys = keys_of(t);
    proof { lemma_first_pos(keys, name@); }
    let r = table_get_index_of(&scheme.types, name);
    proof {
        assert forall|j: int| 0 <= j < t.len() implies #[trigger] keys[j] == table_entries(scheme.types)[j].0@ by {}
        match r {
            Some(i) => {
                assert(keys[i as int] == name@);
                match first_pos(keys, name@) {
                    Some(p) => {
                        assert(keys[p] == name@);
                        if p != i as int {
                            assert(table_entries(scheme.types)[p].0@ != name@);
                        }
                    },
                    None => {},
                }
            },
            None => {
                match first_pos(keys, name@) {
                    Some(p) => {
                        assert(keys[p] == table_entries(scheme.types)[p].0@);
                    },
                    None => {},
                }
            },
        }
    }
    r
}

// ---------------------------------------------------------------------------
// One serializer
// ---------------------------------------------------------------------------

/// Bit of the first condition named `k` (0 when there is none).
pub open spec fn cond_bit(conds: Seq<(Seq<char>, u32)>, k: Seq<char>) -> u32 {
    match first_pos(keys_of(conds), k) {
        Some(i) => conds[i].1,
        None => 0,
    }
}

fn cond_bit_exec(c: &Constructor, k: &str) -> (r: u32)
    ensures
        r == cond_bit(c@.conditions, k@),
{
    assert(keys_of(c@.conditions) =~= c.conditions@.map_values(|e: (String, u32)| e.0@));
    proof { lemma_first_pos(keys_of(c@.conditions), k@); }
    let mut i: usize = 0;
    while i < c.conditions.len()
        invariant
            i <= c.conditions@.len(),
            c@.conditions.len() == c.conditions@.len(),
            forall|j: int| 0 <= j < i ==> keys_of(c@.conditions)[j] != k@,
        decreases c.conditions.len() - i,
    {
        assert(keys_of(c@.conditions)[i as int] == c.conditions@[i as int].0@);
        if str_eq(c.conditions[i].0.as_str(), k) {
            assert(c@.conditions[i as int].1 == c.conditions@[i as int].1);
            proof {
                lemma_first_pos(keys_of(c@.conditions), k@);
                match first_pos(keys_of(c@.conditions), k@) {
                    Some(p) => {
                        if p < i {
                            assert(keys_of(c@.conditions)[p] != k@);
                        }
                    },
                    None => {},
                }
            }
            return c.conditions[i].1;
        }
        i += 1;
    }
    proof { lemma_first_pos(keys_of(c@.conditions), k@); }
    0
}

/// `absent(index)` cases: one per conditional parameter, numbered by
/// parameter position.
pub open spec fn absent_cases(prefix: Seq<char>, ta: Seq<char>, c: CtorModel, ps: Seq<ParamModel>) -> Seq<char>
    decreases ps.len(),
{
    if ps.len() == 0 {
        Seq::empty()
    } else {
        let prev = absent_cases(prefix, ta, c, ps.drop_last());
        let k = ps.last().name;
        if crate::emit::has_cond(c.conditions, k) {
            prev + "\t\tcase "@ + dec_nat((ps.len() - 1) as nat) + ": return !(flag & "@ + prefix + c.name + ta
                + "::Flag::f_"@ + k + ");\n"@
        } else {
            prev
        }
    }
}

/// The dump serializer treats a conditional field as absent exactly when
/// its flag bit is clear: for every conditional parameter at position `i`,
/// the `absent` cases hold `case i: return !(flag & <type>::Flag::f_<k>);`.
pub proof fn law_absent_is_flag_clear(prefix: Seq<char>, ta: Seq<char>, c: CtorModel, ps: Seq<ParamModel>, i: int)
    requires
        0 <= i < ps.len(),
        crate::emit::has_cond(c.conditions, ps[i].name),
    ensures
        crate::text::contains(
            absent_cases(prefix, ta, c, ps),
            "\t\tcase "@ + dec_nat(i as nat) + ": return !(flag & "@ + prefix + c.name + ta + "::Flag::f_"@ + ps[i].name + ");\n"@,
        ),
    decreases ps.len(),
{
    let line = "\t\tcase "@ + dec_nat(i as nat) + ": return !(flag & "@ + prefix + c.name + ta + "::Flag::f_"@ + ps[i].name + ");\n"@;
    let prev = absent_cases(prefix, ta, c, ps.drop_last());
    let kl = ps.last().name;
    let piece = if crate::emit::has_cond(c.conditions, kl) {
        "\t\tcase "@ + dec_nat((ps.len() - 1) as nat) + ": return !(flag & "@ + prefix + c.name + ta + "::Flag::f_"@ + kl + ");\n"@
    } else {
        Seq::<char>::empty()
    };
    assert(absent_cases(prefix, ta, c, ps) =~= prev + piece);
    if i == ps.len() - 1 {
        assert(piece =~= line);
        crate::text::lemma_contains_suffix(prev, line);
    } else {
        assert(ps.drop_last()[i] == ps[i]);
        law_absent_is_flag_clear(prefix, ta, c, ps.drop_last(), i);
        crate::text::lemma_contains_extend(prev, piece, line);
    }
}

/// The restype a parameter's value is looked up under: the element of a
/// prefixed vector or the type itself, cleared when it is a boxed name or
/// starts with an uppercase letter.
pub open spec fn restype_of(sm: SchemeModel, v: Seq<char>) -> Seq<char> {
    let rt = match vector_mtp(v) {
        Some(inner) => inner,
        None => v,
    };
    if is_boxed(sm, rt) || upper_start(rt) { Seq::empty() } else { rt }
}

/// `types.push_back(...)...` of one non-`true` parameter appended to `t`,
/// and whether the case completes (`false` for a bare type with more than
/// one constructor, which is left unfinished).
pub open spec fn push_part(t: Seq<char>, sm: SchemeModel, idp: Seq<char>, c: CtorModel, k: Seq<char>, v: Seq<char>) -> (Seq<char>, bool) {
    let vtg = vector_mtp(v);
    let t = t + "types.push_back("@;
    let t = if vtg is Some { if !upper_start(v) { t + idp + "vector"@ } else { t + "0"@ } } else { t };
    let rt = restype_of(sm, v);
    if rt.len() > 0 {
        match first_pos(keys_of(sm.types), rt) {
            Some(i) => {
                if sm.types[i].1.ctors.len() > 1 {
                    (t, false)
                } else {
                    let t = if vtg is Some { t + "); vtypes.push_back("@ } else { t };
                    let t = t + idp + sm.types[i].1.ctors[0].name;
                    let t = if vtg is None { t + "); vtypes.push_back(0"@ } else { t };
                    (t + "); stages.push_back(0); flags.push_back(0); "@, true)
                }
            },
            None => {
                let t = if vtg is Some { t + "); vtypes.push_back("@ } else { t };
                let t = if starts_with(rt, "flags<"@) {
                    let t = t + idp + "flags"@;
                    if k == c.flags_name && c.flags64_name.len() > 0 { t + "64"@ } else { t }
                } else {
                    t + idp + rt + "+0"@
                };
                let t = if vtg is None { t + "); vtypes.push_back(0"@ } else { t };
                (t + "); stages.push_back(0); flags.push_back(0); "@, true)
            },
        }
    } else {
        let t = if vtg is None { t + "0"@ } else { t };
        (t + "); vtypes.push_back(0"@ + "); stages.push_back(0); flags.push_back(0); "@, true)
    }
}

/// The `switch (stage)` cases over the parameters, appended to `acc`, with
/// the next stage number.
pub open spec fn ser_cases(acc: Seq<char>, sm: SchemeModel, idp: Seq<char>, c: CtorModel, ps: Seq<ParamModel>) -> (Seq<char>, nat)
    decreases ps.len(),
{
    if ps.len() == 0 {
        (acc, 0)
    } else {
        let prev = ser_cases(acc, sm, idp, c, ps.drop_last());
        let k = ps.last().name;
        let v = ps.last().tl_type;
        let t = prev.0 + "\tcase "@ + dec_nat(prev.1) + ": to.add(\"  "@ + k + ": \"); ++stages.back(); "@;
        let t = if k == c.flags_name {
            if c.flags64_name.len() > 0 {
                t + "if (start + 1 >= end) return false; else flags.back() = int64(*start) + (int64(*(start + 1)) << 32); "@
            } else {
                t + "if (start >= end) return false; else flags.back() = *start; "@
            }
        } else {
            t
        };
        if c.trivial_conditions.contains(k) {
            let bit = cond_bit(c.conditions, k);
            let field = if bit >= 32 { c.flags64_name } else { c.flags_name };
            let logged: u32 = if bit >= 32 { (bit - 32) as u32 } else { bit };
            (t + "to.add(\"YES [ BY BIT "@ + dec(logged) + " IN FIELD "@ + field + " ]\"); "@ + "break;\n"@, prev.1 + 1)
        } else {
            let p = push_part(t, sm, idp, c, k, v);
            if p.1 { (p.0 + "break;\n"@, prev.1 + 1) } else { (p.0, prev.1) }
        }
    }
}

/// `Serialize_<name>`: the text serializer of one constructor.
pub open spec fn ser_ctor_text(sm: SchemeModel, idp: Seq<char>, prime: Seq<char>, prefix: Seq<char>, c: CtorModel) -> Seq<char> {
    let name = c.name;
    let frt = if c.flags64_name.len() > 0 { "uint64"@ } else { "uint32"@ };
    let ta = if c.is_template { "<SerializedRequest>"@ } else { ""@ };
    let r = "bool Serialize_"@ + name
        + "(DumpToTextBuffer &to, int32 stage, int32 lev, Types &types, Types &vtypes, Stages &stages, Flags &flags, const "@
        + prime + " *start, const "@ + prime + " *end, uint64 iflag) {\n"@;
    let r = if c.conditions.len() > 0 {
        r + "\tauto flag = "@ + prefix + name + ta + "::Flags::from_raw("@ + frt + "(iflag));\n\n"@
    } else {
        r
    };
    let r = if c.params.len() > 0 {
        let r = if c.conditions.len() > 0 {
            r + "\tconst auto first = !stage;\n"@ + "\tconst auto absent = [&](int32 index) {\n"@ + "\t\tswitch (index) {\n"@
                + absent_cases(prefix, ta, c, c.params) + "\t\t}\n"@ + "\t\treturn false;\n"@ + "\t};\n"@
                + "\twhile (absent(stage)) {\n"@ + "\t\t++stage;\n"@ + "\t\t++stages.back();\n"@ + "\t}\n\n"@
        } else {
            r
        };
        let nf = if c.conditions.len() > 0 { "!first"@ } else { "stage"@ };
        let r = r + "\tif ("@ + nf + ") {\n"@ + "\t\tto.add(\",\\n\").addSpaces(lev);\n"@ + "\t} else {\n"@
            + "\t\tto.add(\"{ "@ + name + "\");\n"@ + "\t\tto.add(\"\\n\").addSpaces(lev);\n"@ + "\t}\n"@
            + "\tswitch (stage) {\n"@;
        ser_cases(r, sm, idp, c, c.params).0
            + "\tdefault: to.add(\"}\"); types.pop_back(); vtypes.pop_back(); stages.pop_back(); flags.pop_back(); break;\n"@
            + "\t}\n"@
    } else {
        r + "\tto.add(\"{ "@ + name + " }\"); types.pop_back(); vtypes.pop_back(); stages.pop_back(); flags.pop_back();\n"@
    };
    r + "\treturn true;\n"@ + "}\n\n"@
}

/// The inputs one parameter's serializer handles: a looked-up bare type
/// has a constructor.
pub open spec fn ser_param_ok(sm: SchemeModel, c: CtorModel, p: ParamModel) -> bool {
    c.trivial_conditions.contains(p.name) || {
        let rt = restype_of(sm, p.tl_type);
        rt.len() > 0 ==> match first_pos(keys_of(sm.types), rt) {
            Some(i) => sm.types[i].1.ctors.len() > 0,
            None => true,
        }
    }
}

pub open spec fn ser_ctor_ok(sm: SchemeModel, c: CtorModel) -> bool {
    forall|i: int| 0 <= i < c.params.len() ==> ser_param_ok(sm, c, #[trigger] c.params[i])
}

pub open spec fn ser_table_ok(sm: SchemeModel, t: Seq<(Seq<char>, TypeDefModel)>) -> bool {
    forall|i: int, j: int| 0 <= i < t.len() && 0 <= j < (#[trigger] t[i]).1.ctors.len() ==> ser_ctor_ok(sm, #[trigger] t[i].1.ctors[j])
}

/// The inputs the dump-to-text source handles.
pub open spec fn dump_ok(sm: SchemeModel) -> bool {
    ser_table_ok(sm, sm.types) && ser_table_ok(sm, sm.funcs)
}

fn restype_exec(scheme: &Scheme, v: &str) -> (r: String)
    ensures
        r@ == restype_of(scheme_view(*scheme), v@),
{
    let vtg = vector_mtp_exec(v);
    let rt0 = match vtg {
        Some(inner) => inner,
        None => String::from_str(v),
    };
    if is_boxed_exec(scheme, rt0.as_str()) || upper_start_exec(rt0.as_str()) { String::new() } else { rt0 }
}

fn push_part_exec(t: &mut String, scheme: &Scheme, idp: &str, c: &Constructor, k: &str, v: &str) -> (done: bool)
    requires
        ({
            let sm = scheme_view(*scheme);
            let rt = restype_of(sm, v@);
            rt.len() > 0 ==> match first_pos(keys_of(sm.types), rt) {
                Some(i) => sm.types[i].1.ctors.len() > 0,
                None => true,
            }
        }),
    ensures
        (final(t)@, done) == push_part(old(t)@, scheme_view(*scheme), idp@, c@, k@, v@),
{
    let ghost sm = scheme_view(*scheme);
    let vtg = vector_mtp_exec(v);
    t.append("types.push_back(");
    if vtg.is_some() {
        if !upper_start_exec(v) {
            t.append(idp);
            t.append("vector");
        } else {
            t.append("0");
        }
    }
    let rt = restype_exec(scheme, v);
    if rt.unicode_len() > 0 {
        match lookup_type(scheme, rt.as_str()) {
            Some(i) => {
                let (_, def) = table_get_index(&scheme.types, i).unwrap();
                assert(sm.types[i as int].1 == def@);
                if def.ctors.len() > 1 {
                    return false;
                }
                if vtg.is_some() {
                    t.append("); vtypes.push_back(");
                }
                assert(def@.ctors[0] == def.ctors@[0]@);
                t.append(idp);
                t.append(def.ctors[0].name.as_str());
                if vtg.is_none() {
                    t.append("); vtypes.push_back(0");
                }
                t.append("); stages.push_back(0); flags.push_back(0); ");
                true
            },
            None => {
                if vtg.is_some() {
                    t.append("); vtypes.push_back(");
                }
                let rtc = chars_of(rt.as_str());
                let fl = chars_of("flags<");
                if starts_with_exec(&rtc, &fl) {
                    t.append(idp);
                    t.append("flags");
                    if str_eq(k, c.flags_name.as_str()) && c.flags64_name.unicode_len() > 0 {
                        t.append("64");
                    }
                } else {
                    t.append(idp);
                    t.append(rt.as_str());
                    t.append("+0");
                }
                if vtg.is_none() {
                    t.append("); vtypes.push_back(0");
                }
                t.append("); stages.push_back(0); flags.push_back(0); ");
                true
            },
        }
    } else {
        if vtg.is_none() {
            t.append("0");
        }
        t.append("); vtypes.push_back(0");
        t.append("); stages.push_back(0); flags.push_back(0); ");
        true
    }
}

fn ser_cases_exec(r: &mut String, scheme: &Scheme, idp: &str, c: &Constructor)
    requires
        ser_ctor_ok(scheme_view(*scheme), c@),
    ensures
        final(r)@ == ser_cases(old(r)@, scheme_view(*scheme), idp@, c@, c@.params).0,
{
    let ghost sm = scheme_view(*scheme);
    let ghost ps = c@.params;
    let ghost r0 = r@;
    let mut stage: usize = 0;
    let mut i: usize = 0;
    while i < c.params.len()
        invariant
            i <= c.params@.len(),
            ps == c@.params,
            ps.len() == c.params@.len(),
            sm == scheme_view(*scheme),
            ser_ctor_ok(sm, c@),
            stage <= i,
            (r@, stage as nat) == ser_cases(r0, sm, idp@, c@, ps.take(i as int)),
        decreases c.params.len() - i,
    {
        assert(ps.take(i + 1).drop_last() =~= ps.take(i as int));
        assert(ps.take(i + 1).last() == c.params@[i as int]@);
        assert(ps[i as int] == c.params@[i as int]@);
        assert(ser_param_ok(sm, c@, ps[i as int]));
        let k = c.params[i].name.as_str();
        let v = c.params[i].tl_type.as_str();
        let st = dec_usize(stage);
        r.append("\tcase ");
        r.append(st.as_str());
        r.append(": to.add(\"  ");
        r.append(k);
        r.append(": \"); ++stages.back(); ");
        if str_eq(k, c.flags_name.as_str()) {
            if c.flags64_name.unicode_len() > 0 {
                r.append("if (start + 1 >= end) return false; else flags.back() = int64(*start) + (int64(*(start + 1)) << 32); ");
            } else {
                r.append("if (start >= end) return false; else flags.back() = *start; ");
            }
        }
        if contains_str(&c.trivial_conditions, k) {
            let bit = cond_bit_exec(c, k);
            let field = if bit >= 32 { c.flags64_name.as_str() } else { c.flags_name.as_str() };
            let logged: u32 = if bit >= 32 { bit - 32 } else { bit };
            let lg = dec_string(logged);
            r.append("to.add(\"YES [ BY BIT ");
            r.append(lg.as_str());
            r.append(" IN FIELD ");
            r.append(field);
            r.append(" ]\"); ");
            r.append("break;\n");
            stage += 1;
        } else {
            let done = push_part_exec(r, scheme, idp, c, k, v);
            if done {
                r.append("break;\n");
                stage += 1;
            }
        }
        i += 1;
    }
    assert(ps.take(ps.len() as int) =~= ps);
}

fn absent_exec(prefix: &str, ta: &str, c: &Constructor) -> (r: String)
    ensures
        r@ == absent_cases(prefix@, ta@, c@, c@.params),
{
    let ghost ps = c@.params;
    let mut a = String::new();
    let mut i: usize = 0;
    while i < c.params.len()
        invariant
            i <= c.params@.len(),
            ps == c@.params,
            ps.len() == c.params@.len(),
            a@ == absent_cases(prefix@, ta@, c@, ps.take(i as int)),
        decreases c.params.len() - i,
    {
        assert(ps.take(i + 1).drop_last() =~= ps.take(i as int));
        assert(ps.take(i + 1).last() == c.params@[i as int]@);
        let k = c.params[i].name.as_str();
        if crate::emit::is_cond(c, k) {
            let st = dec_usize(i);
            a.append("\t\tcase ");
            a.append(st.as_str());
            a.append(": return !(flag & ");
            a.append(prefix);
            a.append(c.name.as_str());
            a.append(ta);
            a.append("::Flag::f_");
            a.append(k);
            a.append(");\n");
        }
        i += 1;
    }
    assert(ps.take(ps.len() as int) =~= ps);
    a
}

fn serialize_ctor(result: &mut String, c: &Constructor, scheme: &Scheme, idp: &str, prime: &str, prefix: &str)
    requires
        ser_ctor_ok(scheme_view(*scheme), c@),
    ensures
        final(result)@ == old(result)@ + ser_ctor_text(scheme_view(*scheme), idp@, prime@, prefix@, c@),
{
    let name = c.name.as_str();
    let frt = if c.flags64_name.unicode_len() > 0 { "uint64" } else { "uint32" };
    let ta = if c.is_template { "<SerializedRequest>" } else { "" };
    let mut r = String::from_str("bool Serialize_");
    r.append(name);
    r.append("(DumpToTextBuffer &to, int32 stage, int32 lev, Types &types, Types &vtypes, Stages &stages, Flags &flags, const ");
    r.append(prime);
    r.append(" *start, const ");
    r.append(prime);
    r.append(" *end, uint64 iflag) {\n");
    if c.conditions.len() > 0 {
        r.append("\tauto flag = ");
        r.append(prefix);
        r.append(name);
        r.append(ta);
        r.append("::Flags::from_raw(");
        r.append(frt);
        r.append("(iflag));\n\n");
    }
    if c.params.len() > 0 {
        if c.conditions.len() > 0 {
            let ab = absent_exec(prefix, ta, c);
            r.append("\tconst auto first = !stage;\n");
            r.append("\tconst auto absent = [&](int32 index) {\n");
            r.append("\t\tswitch (index) {\n");
            r.append(ab.as_str());
            r.append("\t\t}\n");
            r.append("\t\treturn false;\n");
            r.append("\t};\n");
            r.append("\twhile (absent(stage)) {\n");
            r.append("\t\t++stage;\n");
            r.append("\t\t++stages.back();\n");
            r.append("\t}\n\n");
        }
        let nf = if c.conditions.len() > 0 { "!first" } else { "stage" };
        r.append("\tif (");
        r.append(nf);
        r.append(") {\n");
        r.append("\t\tto.add(\",\\n\").addSpaces(lev);\n");
        r.append("\t} else {\n");
        r.append("\t\tto.add(\"{ ");
        r.append(name);
        r.append("\");\n");
        r.append("\t\tto.add(\"\\n\").addSpaces(lev);\n");
        r.append("\t}\n");
        r.append("\tswitch (stage) {\n");
        ser_cases_exec(&mut r, scheme, idp, c);
        r.append("\tdefault: to.add(\"}\"); types.pop_back(); vtypes.pop_back(); stages.pop_back(); flags.pop_back(); break;\n");
        r.append("\t}\n");
    } else {
        r.append("\tto.add(\"{ ");
        r.append(name);
        r.append(" }\"); types.pop_back(); vtypes.pop_back(); stages.pop_back(); flags.pop_back();\n");
    }
    r.append("\treturn true;\n");
    r.append("}\n\n");
    result.append(r.as_str());
}

fn ser_ctor_ok_exec(scheme: &Scheme, c: &Constructor) -> (r: bool)
    ensures
        r == ser_ctor_ok(scheme_view(*scheme), c@),
{
    let ghost sm = scheme_view(*scheme);
    let mut i: usize = 0;
    while i < c.params.len()
        invariant
            i <= c.params@.len(),
            sm == scheme_view(*scheme),
            c@.params.len() == c.params@.len(),
            forall|k: int| 0 <= k < i ==> ser_param_ok(sm, c@, #[trigger] c@.params[k]),
        decreases c.params.len() - i,
    {
        assert(c@.params[i as int] == c.params@[i as int]@);
        let p = &c.params[i];
        if !contains_str(&c.trivial_conditions, p.name.as_str()) {
            let rt = restype_exec(scheme, p.tl_type.as_str());
            if rt.unicode_len() > 0 {
                match lookup_type(scheme, rt.as_str()) {
                    Some(j) => {
                        let (_, def) = table_get_index(&scheme.types, j).unwrap();
                        assert(sm.types[j as int].1 == def@);
                        if def.ctors.len() == 0 {
                            assert(!ser_param_ok(sm, c@, c@.params[i as int]));
                            return false;
                        }
                    },
                    None => {},
                }
            }
        }
        i += 1;
    }
    true
}

fn ser_table_ok_exec(scheme: &Scheme, table: &IndexMap<String, TypeDef>) -> (r: bool)
    ensures
        r == ser_table_ok(scheme_view(*scheme), table_view(*table)),
{
    let ghost sm = scheme_view(*scheme);
    let ghost t = table_view(*table);
    let n = table_len(table);
    let mut i: usize = 0;
    while i < n
        invariant
            i <= n,
            n == t.len(),
            t == table_view(*table),
            sm == scheme_view(*scheme),
            forall|k: int, j: int| 0 <= k < i && 0 <= j < (#[trigger] t[k]).1.ctors.len() ==> ser_ctor_ok(sm, #[trigger] t[k].1.ctors[j]),
        decreases n - i,
    {
        let (_, def) = table_get_index(table, i).unwrap();
        assert(t[i as int].1 == def@);
        let mut j: usize = 0;
        while j < def.ctors.len()
            invariant
                j <= def.ctors@.len(),
                i < n,
                n == t.len(),
                t == table_view(*table),
                sm == scheme_view(*scheme),
                t[i as int].1 == def@,
                forall|k: int, q: int| 0 <= k < i && 0 <= q < (#[trigger] t[k]).1.ctors.len() ==> ser_ctor_ok(sm, #[trigger] t[k].1.ctors[q]),
                forall|q: int| 0 <= q < j ==> ser_ctor_ok(sm, #[trigger] def@.ctors[q]),
            decreases def.ctors.len() - j,
        {
            assert(def@.ctors[j as int] == def.ctors@[j as int]@);
            if !ser_ctor_ok_exec(scheme, &def.ctors[j]) {
                assert(!ser_ctor_ok(sm, t[i as int].1.ctors[j as int]));
                return false;
            }
            j += 1;
        }
        assert forall|k: int, q: int| 0 <= k < i + 1 && 0 <= q < (#[trigger] t[k]).1.ctors.len() implies ser_ctor_ok(sm, #[trigger] t[k].1.ctors[q]) by {
            if k == i as int {
                assert(t[k].1.ctors[q] == def@.ctors[q]);
            }
        }
        i += 1;
    }
    true
}

/// Whether the dump-to-text source handles `scheme` (`dump_ok`).
pub fn dump_ok_exec(scheme: &Scheme) -> (r: bool)
    ensures
        r == dump_ok(scheme_view(*scheme)),
{
    ser_table_ok_exec(scheme, &scheme.types) && ser_table_ok_exec(scheme, &scheme.funcs)
}

// ---------------------------------------------------------------------------
// Tables of serializers
// ---------------------------------------------------------------------------

pub open spec fn ser_ctors(acc: Seq<char>, sm: SchemeModel, idp: Seq<char>, prime: Seq<char>, prefix: Seq<char>, cs: Seq<CtorModel>) -> Seq<char>
    decreases cs.len(),
{
    if cs.len() == 0 {
        acc
    } else {
        ser_ctors(acc, sm, idp, prime, prefix, cs.drop_last()) + ser_ctor_text(sm, idp, prime, prefix, cs.last())
    }
}

/// Serializers of every constructor of a table, in order.
pub open spec fn ser_table(acc: Seq<char>, sm: SchemeModel, idp: Seq<char>, prime: Seq<char>, prefix: Seq<char>, t: Seq<(Seq<char>, TypeDefModel)>) -> Seq<char>
    decreases t.len(),
{
    if t.len() == 0 {
        acc
    } else {
        ser_ctors(ser_table(acc, sm, idp, prime, prefix, t.drop_last()), sm, idp, prime, prefix, t.last().1.ctors)
    }
}

/// The diagnostic a parameter whose type resolves to a bare type of several
/// constructors gets (its serializer case is left open).
pub open spec fn complex_bare_note(rt: Seq<char>, k: Seq<char>, v: Seq<char>) -> Seq<char> {
    "Complex bare type found: \""@ + rt + "\" trying to serialize \""@ + k + "\" of type \""@ + v + "\""@
}

/// What serializing one parameter reports: the note exactly where
/// `push_part` gives up.
pub open spec fn ser_param_notes(sm: SchemeModel, c: CtorModel, p: ParamModel) -> Seq<Seq<char>> {
    let k = p.name;
    let v = p.tl_type;
    let rt = restype_of(sm, v);
    if c.trivial_conditions.contains(k) || rt.len() == 0 {
        Seq::empty()
    } else {
        match first_pos(keys_of(sm.types), rt) {
            Some(i) => if sm.types[i].1.ctors.len() > 1 { seq![complex_bare_note(rt, k, v)] } else { Seq::empty() },
            None => Seq::empty(),
        }
    }
}

pub open spec fn ser_params_notes(sm: SchemeModel, c: CtorModel, ps: Seq<ParamModel>) -> Seq<Seq<char>>
    decreases ps.len(),
{
    if ps.len() == 0 {
        Seq::empty()
    } else {
        ser_params_notes(sm, c, ps.drop_last()) + ser_param_notes(sm, c, ps.last())
    }
}

pub open spec fn ser_ctors_notes(sm: SchemeModel, cs: Seq<CtorModel>) -> Seq<Seq<char>>
    decreases cs.len(),
{
    if cs.len() == 0 {
        Seq::empty()
    } else {
        ser_ctors_notes(sm, cs.drop_last()) + ser_params_notes(sm, cs.last(), cs.last().params)
    }
}

pub open spec fn ser_table_notes(sm: SchemeModel, t: Seq<(Seq<char>, TypeDefModel)>) -> Seq<Seq<char>>
    decreases t.len(),
{
    if t.len() == 0 {
        Seq::empty()
    } else {
        ser_table_notes(sm, t.drop_last()) + ser_ctors_notes(sm, t.last().1.ctors)
    }
}

/// The diagnostics writing the dump-to-text source reports, in the order
/// the serializers are written: types, then methods.
pub open spec fn dump_source_notes(sm: SchemeModel) -> Seq<Seq<char>> {
    ser_table_notes(sm, sm.types) + ser_table_notes(sm, sm.funcs)
}

fn ser_param_notes_exec(notes: &mut Vec<String>, scheme: &Scheme, c: &Constructor, p: &crate::ir::Param)
    ensures
        views(final(notes)@) == views(old(notes)@) + ser_param_notes(scheme_view(*scheme), c@, p@),
{
    let ghost sm = scheme_view(*scheme);
    let k = p.name.as_str();
    let v = p.tl_type.as_str();
    let rt = restype_exec(scheme, v);
    if contains_str(&c.trivial_conditions, k) || rt.unicode_len() == 0 {
        assert(views(notes@) =~= views(notes@) + Seq::<Seq<char>>::empty());
        return;
    }
    match lookup_type(scheme, rt.as_str()) {
        Some(i) => {
            let (_, def) = table_get_index(&scheme.types, i).unwrap();
            assert(sm.types[i as int].1 == def@);
            if def.ctors.len() > 1 {
                let mut m = String::from_str("Complex bare type found: \"");
                m.append(rt.as_str());
                m.append("\" trying to serialize \"");
                m.append(k);
                m.append("\" of type \"");
                m.append(v);
                m.append("\"");
                let ghost n0 = notes@;
                notes.push(m);
                assert(views(notes@) =~= views(n0) + seq![complex_bare_note(rt@, k@, v@)]);
            } else {
                assert(views(notes@) =~= views(notes@) + Seq::<Seq<char>>::empty());
            }
        },
        None => {
            assert(views(notes@) =~= views(notes@) + Seq::<Seq<char>>::empty());
        },
    }
}

fn ser_table_notes_exec(notes: &mut Vec<String>, scheme: &Scheme, table: &IndexMap<String, TypeDef>)
    ensures
        views(final(notes)@) == views(old(notes)@) + ser_table_notes(scheme_view(*scheme), table_view(*table)),
{
    let ghost sm = scheme_view(*scheme);
    let ghost t = table_view(*table);
    let ghost n0 = views(notes@);
    let n = table_len(table);
    let mut i: usize = 0;
    while i < n
        invariant
            i <= n,
            n == t.len(),
            t == table_view(*table),
            sm == scheme_view(*scheme),
            views(notes@) == n0 + ser_table_notes(sm, t.take(i as int)),
        decreases n - i,
    {
        assert(t.take(i + 1).drop_last() =~= t.take(i as int));
        let (_, def) = table_get_index(table, i).unwrap();
        assert(t.take(i + 1).last().1 == def@);
        let ghost base = views(notes@);
        let ghost cs = def@.ctors;
        let mut j: usize = 0;
        while j < def.ctors.len()
            invariant
                j <= def.ctors@.len(),
                cs == def@.ctors,
                cs.len() == def.ctors@.len(),
                sm == scheme_view(*scheme),
                views(notes@) == base + ser_ctors_notes(sm, cs.take(j as int)),
            decreases def.ctors.len() - j,
        {
            assert(cs.take(j + 1).drop_last() =~= cs.take(j as int));
            assert(cs.take(j + 1).last() == def.ctors@[j as int]@);
            let c = &def.ctors[j];
            let ghost ps = c@.params;
            let ghost cbase = views(notes@);
            let mut q: usize = 0;
            while q < c.params.len()
                invariant
                    q <= c.params@.len(),
                    ps == c@.params,
                    ps.len() == c.params@.len(),
                    sm == scheme_view(*scheme),
                    views(notes@) == cbase + ser_params_notes(sm, c@, ps.take(q as int)),
                decreases c.params.len() - q,
            {
                assert(ps.take(q + 1).drop_last() =~= ps.take(q as int));
                assert(ps.take(q + 1).last() == c.params@[q as int]@);
                ser_param_notes_exec(notes, scheme, c, &c.params[q]);
                assert(views(notes@) =~= cbase + ser_params_notes(sm, c@, ps.take(q + 1)));
                q += 1;
            }
            assert(ps.take(ps.len() as int) =~= ps);
            assert(views(notes@) =~= base + ser_ctors_notes(sm, cs.take(j + 1)));
            j += 1;
        }
        assert(cs.take(cs.len() as int) =~= cs);
        assert(views(notes@) =~= n0 + ser_table_notes(sm, t.take(i + 1)));
        i += 1;
    }
    assert(t.take(t.len() as int) =~= t);
}

/// The diagnostics `emit_source` reports while it writes the serializers
/// (`Complex bare type found: ...`), in order, for the caller to print.
pub fn emit_source_notes(scheme: &Scheme) -> (r: Vec<String>)
    ensures
        views(r@) == dump_source_notes(scheme_view(*scheme)),
{
    let mut r: Vec<String> = Vec::new();
    ser_table_notes_exec(&mut r, scheme, &scheme.types);
    ser_table_notes_exec(&mut r, scheme, &scheme.funcs);
    assert(views(r@) =~= dump_source_notes(scheme_view(*scheme)));
    r
}

pub open spec fn init_rows_ctors(acc: Seq<char>, idp: Seq<char>, cs: Seq<CtorModel>) -> Seq<char>
    decreases cs.len(),
{
    if cs.len() == 0 {
        acc
    } else {
        init_rows_ctors(acc, idp, cs.drop_last()) + "\t\t{ "@ + idp + cs.last().name + ", Serialize_"@ + cs.last().name + " },\n"@
    }
}

/// Serializer table rows of every constructor of a table, in order.
pub open spec fn init_rows(acc: Seq<char>, idp: Seq<char>, t: Seq<(Seq<char>, TypeDefModel)>) -> Seq<char>
    decreases t.len(),
{
    if t.len() == 0 { acc } else { init_rows_ctors(init_rows(acc, idp, t.drop_last()), idp, t.last().1.ctors) }
}

fn add_text_serialize(scheme: &Scheme, table: &IndexMap<String, TypeDef>, idp: &str, prime: &str, prefix: &str) -> (r: String)
    requires
        ser_table_ok(scheme_view(*scheme), table_view(*table)),
    ensures
        r@ == ser_table(Seq::empty(), scheme_view(*scheme), idp@, prime@, prefix@, table_view(*table)),
{
    let ghost sm = scheme_view(*scheme);
    let ghost t = table_view(*table);
    let mut result = String::new();
    let n = table_len(table);
    let mut i: usize = 0;
    while i < n
        invariant
            i <= n,
            n == t.len(),
            t == table_view(*table),
            sm == scheme_view(*scheme),
            ser_table_ok(sm, t),
            result@ == ser_table(Seq::empty(), sm, idp@, prime@, prefix@, t.take(i as int)),
        decreases n - i,
    {
        assert(t.take(i + 1).drop_last() =~= t.take(i as int));
        let (_, def) = table_get_index(table, i).unwrap();
        assert(t.take(i + 1).last().1 == def@);
        assert(t[i as int].1 == def@);
        let ghost base = result@;
        let ghost cs = def@.ctors;
        let mut j: usize = 0;
        while j < def.ctors.len()
            invariant
                j <= def.ctors@.len(),
                cs == def@.ctors,
                cs.len() == def.ctors@.len(),
                sm == scheme_view(*scheme),
                forall|q: int| 0 <= q < cs.len() ==> ser_ctor_ok(sm, #[trigger] cs[q]),
                result@ == ser_ctors(base, sm, idp@, prime@, prefix@, cs.take(j as int)),
            decreases def.ctors.len() - j,
        {
            assert(cs.take(j + 1).drop_last() =~= cs.take(j as int));
            assert(cs.take(j + 1).last() == def.ctors@[j as int]@);
            assert(cs[j as int] == def.ctors@[j as int]@);
            serialize_ctor(&mut result, &def.ctors[j], scheme, idp, prime, prefix);
            j += 1;
        }
        assert(cs.take(cs.len() as int) =~= cs);
        i += 1;
    }
    assert(t.take(t.len() as int) =~= t);
    result
}

fn add_text_serialize_init(table: &IndexMap<String, TypeDef>, idp: &str) -> (r: String)
    ensures
        r@ == init_rows(Seq::empty(), idp@, table_view(*table)),
{
    let ghost t = table_view(*table);
    let mut result = String::new();
    let n = table_len(table);
    let mut i: usize = 0;
    while i < n
        invariant
            i <= n,
            n == t.len(),
            t == table_view(*table),
            result@ == init_rows(Seq::empty(), idp@, t.take(i as int)),
        decreases n - i,
    {
        assert(t.take(i + 1).drop_last() =~= t.take(i as int));
        let (_, def) = table_get_index(table, i).unwrap();
        assert(t.take(i + 1).last().1 == def@);
        let ghost base = result@;
        let ghost cs = def@.ctors;
        let mut j: usize = 0;
        while j < def.ctors.len()
            invariant
                j <= def.ctors@.len(),
                cs == def@.ctors,
                cs.len() == def.ctors@.len(),
                result@ == init_rows_ctors(base, idp@, cs.take(j as int)),
            decreases def.ctors.len() - j,
        {
            assert(cs.take(j + 1).drop_last() =~= cs.take(j as int));
            assert(cs.take(j + 1).last() == def.ctors@[j as int]@);
            let name = def.ctors[j].name.as_str();
            result.append("\t\t{ ");
            result.append(idp);
            result.append(name);
            result.append(", Serialize_");
            result.append(name);
            result.append(" },\n");
            j += 1;
        }
        assert(cs.take(cs.len() as int) =~= cs);
        i += 1;
    }
    assert(t.take(t.len() as int) =~= t);
    result
}


// ---------------------------------------------------------------------------
// Fixed text
// ---------------------------------------------------------------------------

pub open spec fn manual_methods_text(idp: Seq<char>) -> Seq<char> {
    "bool Serialize_rpc_result(DumpToTextBuffer &to, int32 stage, int32 lev, Types &types, Types &vtypes, Stages &stages, Flags &flags, const {PRIME} *start, const {PRIME} *end, uint64 iflag) {\n\tif (stage) {\n\t\tto.add(\",\\n\").addSpaces(lev);\n\t} else {\n\t\tto.add(\"{ rpc_result\");\n\t\tto.add(\"\\n\").addSpaces(lev);\n\t}\n\tswitch (stage) {\n\tcase 0: to.add(\"  req_msg_id: \"); ++stages.back(); types.push_back("@
        + idp
        + "long); vtypes.push_back(0); stages.push_back(0); flags.push_back(0); break;\n\tcase 1: to.add(\"  result: \"); ++stages.back(); types.push_back(0); vtypes.push_back(0); stages.push_back(0); flags.push_back(0); break;\n\tdefault: to.add(\" }\"); types.pop_back(); vtypes.pop_back(); stages.pop_back(); flags.pop_back(); break;\n\t}\n\treturn true;\n}\n\nbool Serialize_msg_container(DumpToTextBuffer &to, int32 stage, int32 lev, Types &types, Types &vtypes, Stages &stages, Flags &flags, const {PRIME} *start, const {PRIME} *end, uint64 iflag) {\n\tif (stage) {\n\t\tto.add(\",\\n\").addSpaces(lev);\n\t} else {\n\t\tto.add(\"{ msg_container\");\n\t\tto.add(\"\\n\").addSpaces(lev);\n\t}\n\tswitch (stage) {\n\tcase 0: to.add(\"  messages: \"); ++stages.back(); types.push_back("@
        + idp
        + "vector); vtypes.push_back("@
        + idp
        + "core_message); stages.push_back(0); flags.push_back(0); break;\n\tdefault: to.add(\" }\"); types.pop_back(); vtypes.pop_back(); stages.pop_back(); flags.pop_back(); break;\n\t}\n\treturn true;\n}\n\nbool Serialize_core_message(DumpToTextBuffer &to, int32 stage, int32 lev, Types &types, Types &vtypes, Stages &stages, Flags &flags, const {PRIME} *start, const {PRIME} *end, uint64 iflag) {\n\tif (stage) {\n\t\tto.add(\",\\n\").addSpaces(lev);\n\t} else {\n\t\tto.add(\"{ core_message\");\n\t\tto.add(\"\\n\").addSpaces(lev);\n\t}\n\tswitch (stage) {\n\tcase 0: to.add(\"  msg_id: \"); ++stages.back(); types.push_back("@
        + idp
        + "long); vtypes.push_back(0); stages.push_back(0); flags.push_back(0); break;\n\tcase 1: to.add(\"  seq_no: \"); ++stages.back(); types.push_back("@
        + idp
        + "int); vtypes.push_back(0); stages.push_back(0); flags.push_back(0); break;\n\tcase 2: to.add(\"  bytes: \"); ++stages.back(); types.push_back("@
        + idp
        + "int); vtypes.push_back(0); stages.push_back(0); flags.push_back(0); break;\n\tcase 3: to.add(\"  body: \"); ++stages.back(); types.push_back(0); vtypes.push_back(0); stages.push_back(0); flags.push_back(0); break;\n\tdefault: to.add(\" }\"); types.pop_back(); vtypes.pop_back(); stages.pop_back(); flags.pop_back(); break;\n\t}\n\treturn true;\n}\n\n"@
}

/// Hand-written serializers for `rpc_result`, `msg_container` and
/// `core_message`, with a `{PRIME}` placeholder for the prime type.
pub fn manual_methods(idp: &str) -> (r: String)
    ensures
        r@ == manual_methods_text(idp@),
{
    let mut s = String::from_str("bool Serialize_rpc_result(DumpToTextBuffer &to, int32 stage, int32 lev, Types &types, Types &vtypes, Stages &stages, Flags &flags, const {PRIME} *start, const {PRIME} *end, uint64 iflag) {\n\tif (stage) {\n\t\tto.add(\",\\n\").addSpaces(lev);\n\t} else {\n\t\tto.add(\"{ rpc_result\");\n\t\tto.add(\"\\n\").addSpaces(lev);\n\t}\n\tswitch (stage) {\n\tcase 0: to.add(\"  req_msg_id: \"); ++stages.back(); types.push_back(");
    s.append(idp);
    s.append("long); vtypes.push_back(0); stages.push_back(0); flags.push_back(0); break;\n\tcase 1: to.add(\"  result: \"); ++stages.back(); types.push_back(0); vtypes.push_back(0); stages.push_back(0); flags.push_back(0); break;\n\tdefault: to.add(\" }\"); types.pop_back(); vtypes.pop_back(); stages.pop_back(); flags.pop_back(); break;\n\t}\n\treturn true;\n}\n\nbool Serialize_msg_container(DumpToTextBuffer &to, int32 stage, int32 lev, Types &types, Types &vtypes, Stages &stages, Flags &flags, const {PRIME} *start, const {PRIME} *end, uint64 iflag) {\n\tif (stage) {\n\t\tto.add(\",\\n\").addSpaces(lev);\n\t} else {\n\t\tto.add(\"{ msg_container\");\n\t\tto.add(\"\\n\").addSpaces(lev);\n\t}\n\tswitch (stage) {\n\tcase 0: to.add(\"  messages: \"); ++stages.back(); types.push_back(");
    s.append(idp);
    s.append("vector); vtypes.push_back(");
    s.append(idp);
    s.append("core_message); stages.push_back(0); flags.push_back(0); break;\n\tdefault: to.add(\" }\"); types.pop_back(); vtypes.pop_back(); stages.pop_back(); flags.pop_back(); break;\n\t}\n\treturn true;\n}\n\nbool Serialize_core_message(DumpToTextBuffer &to, int32 stage, int32 lev, Types &types, Types &vtypes, Stages &stages, Flags &flags, const {PRIME} *start, const {PRIME} *end, uint64 iflag) {\n\tif (stage) {\n\t\tto.add(\",\\n\").addSpaces(lev);\n\t} else {\n\t\tto.add(\"{ core_message\");\n\t\tto.add(\"\\n\").addSpaces(lev);\n\t}\n\tswitch (stage) {\n\tcase 0: to.add(\"  msg_id: \"); ++stages.back(); types.push_back(");
    s.append(idp);
    s.append("long); vtypes.push_back(0); stages.push_back(0); flags.push_back(0); break;\n\tcase 1: to.add(\"  seq_no: \"); ++stages.back(); types.push_back(");
    s.append(idp);
    s.append("int); vtypes.push_back(0); stages.push_back(0); flags.push_back(0); break;\n\tcase 2: to.add(\"  bytes: \"); ++stages.back(); types.push_back(");
    s.append(idp);
    s.append("int); vtypes.push_back(0); stages.push_back(0); flags.push_back(0); break;\n\tcase 3: to.add(\"  body: \"); ++stages.back(); types.push_back(0); vtypes.push_back(0); stages.push_back(0); flags.push_back(0); break;\n\tdefault: to.add(\" }\"); types.pop_back(); vtypes.pop_back(); stages.pop_back(); flags.pop_back(); break;\n\t}\n\treturn true;\n}\n\n");
    s
}

pub open spec fn manual_init_text(idp: Seq<char>) -> Seq<char> {
    "\t    { "@
        + idp
        + "rpc_result, Serialize_rpc_result },\n\t    { "@
        + idp
        + "msg_container, Serialize_msg_container },\n\t    { "@
        + idp
        + "core_message, Serialize_core_message },\n"@
}

/// Serializer table rows of the hand-written serializers.
pub fn manual_init(idp: &str) -> (r: String)
    ensures
        r@ == manual_init_text(idp@),
{
    let mut s = String::from_str("\t    { ");
    s.append(idp);
    s.append("rpc_result, Serialize_rpc_result },\n\t    { ");
    s.append(idp);
    s.append("msg_container, Serialize_msg_container },\n\t    { ");
    s.append(idp);
    s.append("core_message, Serialize_core_message },\n");
    s
}

pub open spec fn text_serialize_source_text(methods: Seq<char>, init: Seq<char>, prime: Seq<char>, type_id: Seq<char>) -> Seq<char> {
    "namespace {\n\nusing Types = QVector<"@
        + type_id
        + ">;\nusing Stages = QVector<int32>;\nusing Flags = QVector<int64>;\n\n"@
        + methods
        + "\n\nusing TextSerializer = bool (*)(DumpToTextBuffer &to, int32 stage, int32 lev, Types &types, Types &vtypes, Stages &stages, Flags &flags, const "@
        + prime
        + " *start, const "@
        + prime
        + " *end, uint64 iflag);\n\nbase::flat_map<"@
        + type_id
        + ", TextSerializer> CreateTextSerializers() {\n\treturn {\n"@
        + init
        + "\n\t};\n}\n\n} // namespace\n\nbool DumpToTextType(DumpToTextBuffer &to, const "@
        + prime
        + " *&from, const "@
        + prime
        + " *end, "@
        + prime
        + " cons, uint32 level, "@
        + prime
        + " vcons) {\n\tstatic auto kSerializers = CreateTextSerializers();\n\n\tTypes types, vtypes;\n\tStages stages;\n\tFlags flags;\n\ttypes.reserve(20); vtypes.reserve(20); stages.reserve(20); flags.reserve(20);\n\ttypes.push_back("@
        + type_id
        + "(cons)); vtypes.push_back("@
        + type_id
        + "(vcons)); stages.push_back(0); flags.push_back(0);\n\n\t"@
        + type_id
        + " type = cons, vtype = vcons;\n\tint32 stage = 0;\n\tint64 flag = 0;\n\n\twhile (!types.isEmpty()) {\n\t\ttype = types.back();\n\t\tvtype = vtypes.back();\n\t\tstage = stages.back();\n\t\tflag = flags.back();\n\t\tif (!type) {\n\t\t\tif (from >= end) {\n\t\t\t\tto.error(\"insufficient data\");\n\t\t\t\treturn false;\n\t\t\t}\n\t\t\telse if (stage) {\n\t\t\t\tto.error(\"unknown type on stage > 0\");\n\t\t\t\treturn false;\n\t\t\t}\n\t\t\ttypes.back() = type = *from;\n\t\t\t++from;\n\t\t}\n\n\t\tint32 lev = level + types.size() - 1;\n\t\tauto it = kSerializers.find(type);\n\t\tif (it != kSerializers.end()) {\n\t\t\tif (!(*it->second)(to, stage, lev, types, vtypes, stages, flags, from, end, flag)) {\n\t\t\t\tto.error();\n\t\t\t\treturn false;\n\t\t\t}\n\t\t} else if (DumpToTextCore(to, from, end, type, lev, vtype)) {\n\t\t\ttypes.pop_back(); vtypes.pop_back(); stages.pop_back(); flags.pop_back();\n\t\t} else {\n\t\t\tto.error();\n\n\t\t\tconst auto bad = QByteArray::number(type, 16);\n\t\t\tto.add(\"(ERROR_SCHEME_BAD_CONS:0x\").add(bad.data()).add(\")\");\n\n\t\t\treturn false;\n\t\t}\n\t}\n\treturn true;\n}"@
}

/// The serializer namespace and the `DumpToTextType` driver around the
/// generated serializers and their table.
pub fn text_serialize_source(methods: &str, init: &str, prime: &str, type_id: &str) -> (r: String)
    ensures
        r@ == text_serialize_source_text(methods@, init@, prime@, type_id@),
{
    let mut s = String::from_str("namespace {\n\nusing Types = QVector<");
    s.append(type_id);
    s.append(">;\nusing Stages = QVector<int32>;\nusing Flags = QVector<int64>;\n\n");
    s.append(methods);
    s.append("\n\nusing TextSerializer = bool (*)(DumpToTextBuffer &to, int32 stage, int32 lev, Types &types, Types &vtypes, Stages &stages, Flags &flags, const ");
    s.append(prime);
    s.append(" *start, const ");
    s.append(prime);
    s.append(" *end, uint64 iflag);\n\nbase::flat_map<");
    s.append(type_id);
    s.append(", TextSerializer> CreateTextSerializers() {\n\treturn {\n");
    s.append(init);
    s.append("\n\t};\n}\n\n} // namespace\n\nbool DumpToTextType(DumpToTextBuffer &to, const ");
    s.append(prime);
    s.append(" *&from, const ");
    s.append(prime);
    s.append(" *end, ");
    s.append(prime);
    s.append(" cons, uint32 level, ");
    s.append(prime);
    s.append(" vcons) {\n\tstatic auto kSerializers = CreateTextSerializers();\n\n\tTypes types, vtypes;\n\tStages stages;\n\tFlags flags;\n\ttypes.reserve(20); vtypes.reserve(20); stages.reserve(20); flags.reserve(20);\n\ttypes.push_back(");
    s.append(type_id);
    s.append("(cons)); vtypes.push_back(");
    s.append(type_id);
    s.append("(vcons)); stages.push_back(0); flags.push_back(0);\n\n\t");
    s.append(type_id);
    s.append(" type = cons, vtype = vcons;\n\tint32 stage = 0;\n\tint64 flag = 0;\n\n\twhile (!types.isEmpty()) {\n\t\ttype = types.back();\n\t\tvtype = vtypes.back();\n\t\tstage = stages.back();\n\t\tflag = flags.back();\n\t\tif (!type) {\n\t\t\tif (from >= end) {\n\t\t\t\tto.error(\"insufficient data\");\n\t\t\t\treturn false;\n\t\t\t}\n\t\t\telse if (stage) {\n\t\t\t\tto.error(\"unknown type on stage > 0\");\n\t\t\t\treturn false;\n\t\t\t}\n\t\t\ttypes.back() = type = *from;\n\t\t\t++from;\n\t\t}\n\n\t\tint32 lev = level + types.size() - 1;\n\t\tauto it = kSerializers.find(type);\n\t\tif (it != kSerializers.end()) {\n\t\t\tif (!(*it->second)(to, stage, lev, types, vtypes, stages, flags, from, end, flag)) {\n\t\t\t\tto.error();\n\t\t\t\treturn false;\n\t\t\t}\n\t\t} else if (DumpToTextCore(to, from, end, type, lev, vtype)) {\n\t\t\ttypes.pop_back(); vtypes.pop_back(); stages.pop_back(); flags.pop_back();\n\t\t} else {\n\t\t\tto.error();\n\n\t\t\tconst auto bad = QByteArray::number(type, 16);\n\t\t\tto.add(\"(ERROR_SCHEME_BAD_CONS:0x\").add(bad.data()).add(\")\");\n\n\t\t\treturn false;\n\t\t}\n\t}\n\treturn true;\n}");
    s
}

// ---------------------------------------------------------------------------
// Files
// ---------------------------------------------------------------------------

/// `-dump_to_text.h` text.
pub open spec fn dump_header_text(sm: SchemeModel, cfg: CodegenScheme) -> Seq<char> {
    let prime = cfg.types.prime@;
    let h = "// WARNING! All changes made in this file will be lost!\n"@ + "// Created from "@ + quoted_names(sm.input_names)
        + " by 'generate.py'\n//\n#pragma once\n\n"@;
    let h = if cfg.builtin_header@.len() > 0 { h + "#include \""@ + cfg.builtin_header@ + "\"\n\n"@ } else { h };
    h + "namespace MTP::details {\n\nstruct DumpToTextBuffer;\n\n"@ + "[[nodiscard]] bool DumpToTextType(DumpToTextBuffer &to, const "@
        + prime + " *&from, const "@ + prime + " *end, "@ + prime + " cons = 0, uint32 level = 0, "@ + prime
        + " vcons = 0);\n\n} // namespace MTP::details\n"@
}

pub fn emit_header(scheme: &Scheme, config: &CodegenScheme) -> (r: String)
    ensures
        r@ == dump_header_text(scheme_view(*scheme), *config),
{
    let prime = config.types.prime.as_str();
    let names = quoted_names_exec(&scheme.input_names);
    let mut h = String::from_str("// WARNING! All changes made in this file will be lost!\n");
    h.append("// Created from ");
    h.append(names.as_str());
    h.append(" by 'generate.py'\n//\n#pragma once\n\n");
    if config.builtin_header.unicode_len() > 0 {
        h.append("#include \"");
        h.append(config.builtin_header.as_str());
        h.append("\"\n\n");
    }
    h.append("namespace MTP::details {\n\nstruct DumpToTextBuffer;\n\n");
    h.append("[[nodiscard]] bool DumpToTextType(DumpToTextBuffer &to, const ");
    h.append(prime);
    h.append(" *&from, const ");
    h.append(prime);
    h.append(" *end, ");
    h.append(prime);
    h.append(" cons = 0, uint32 level = 0, ");
    h.append(prime);
    h.append(" vcons = 0);\n\n} // namespace MTP::details\n");
    h
}

/// `-dump_to_text.cpp` text.
pub open spec fn dump_source_text(sm: SchemeModel, cfg: CodegenScheme, dump_header_basename: Seq<char>, scheme_header_basename: Seq<char>) -> Seq<char> {
    let idp = cfg.spec_id_prefix();
    let prime = cfg.types.prime@;
    let methods = ser_table(Seq::empty(), sm, idp, prime, cfg.prefixes.data@, sm.types)
        + ser_table(Seq::empty(), sm, idp, prime, cfg.prefixes.type_@, sm.funcs)
        + replace(manual_methods_text(idp), "{PRIME}"@, prime);
    let init = init_rows(Seq::empty(), idp, sm.types) + init_rows(Seq::empty(), idp, sm.funcs) + manual_init_text(idp);
    let body = text_serialize_source_text(methods, init, prime, cfg.types.type_id@);
    let si = match cfg.dump_to_text {
        Some(d) => d.header@,
        None => ""@,
    };
    "// WARNING! All changes made in this file will be lost!\n"@ + "// Created from "@ + quoted_names(sm.input_names)
        + " by 'generate.py'\n//\n#include \""@ + dump_header_basename + "\"\n#include \""@ + scheme_header_basename
        + "\"\n#include \""@ + si + "\"\n#include \"base/flat_map.h\"\n\nnamespace MTP::details {\n"@ + body
        + "\n} // namespace MTP::details\n"@
}

pub fn emit_source(scheme: &Scheme, config: &CodegenScheme) -> (r: String)
    requires
        dump_ok(scheme_view(*scheme)),
    ensures
        r@ == dump_source_text(scheme_view(*scheme), *config, "scheme-dump_to_text.h"@, "scheme.h"@),
{
    emit_source_with_basenames(scheme, config, "scheme-dump_to_text.h", "scheme.h")
}

pub fn emit_source_with_basenames(scheme: &Scheme, config: &CodegenScheme, dump_header_basename: &str, scheme_header_basename: &str) -> (r: String)
    requires
        dump_ok(scheme_view(*scheme)),
    ensures
        r@ == dump_source_text(scheme_view(*scheme), *config, dump_header_basename@, scheme_header_basename@),
{
    let idp = config.id_prefix();
    let prime = config.types.prime.as_str();
    let type_id = config.types.type_id.as_str();
    let mut methods = add_text_serialize(scheme, &scheme.types, idp.as_str(), prime, config.prefixes.data.as_str());
    let mut init = add_text_serialize_init(&scheme.types, idp.as_str());
    let fm = add_text_serialize(scheme, &scheme.funcs, idp.as_str(), prime, config.prefixes.type_.as_str());
    methods.append(fm.as_str());
    let fi = add_text_serialize_init(&scheme.funcs, idp.as_str());
    init.append(fi.as_str());
    let mm = manual_methods(idp.as_str());
    let mmc = chars_of(mm.as_str());
    let from = chars_of("{PRIME}");
    let to = chars_of(prime);
    let replaced = replace_exec(&mmc, &from, &to);
    let rs = string_of(&replaced);
    methods.append(rs.as_str());
    let mi = manual_init(idp.as_str());
    init.append(mi.as_str());
    let body = text_serialize_source(methods.as_str(), init.as_str(), prime, type_id);
    let si = match &config.dump_to_text {
        Some(d) => d.header.as_str(),
        None => "",
    };
    let names = quoted_names_exec(&scheme.input_names);
    let mut s = String::from_str("// WARNING! All changes made in this file will be lost!\n");
    s.append("// Created from ");
    s.append(names.as_str());
    s.append(" by 'generate.py'\n//\n#include \"");
    s.append(dump_header_basename);
    s.append("\"\n#include \"");
    s.append(scheme_header_basename);
    s.append("\"\n#include \"");
    s.append(si);
    s.append("\"\n#include \"base/flat_map.h\"\n\nnamespace MTP::details {\n");
    s.append(body.as_str());
    s.append("\n} // namespace MTP::details\n");
    s
}

} // verus!
