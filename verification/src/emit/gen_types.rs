//! The type part of the generation pass: for every result type its type
//! class, one data class per constructor, creators, readers, writers and
//! visitors.

use vstd::prelude::*;
use crate::config::{CodegenScheme, spec_creator_namespace_full};
use crate::emit::{full_data, full_type, has_cond, is_cond, is_stored, is_stored_exec, stored_of};
use crate::emit::gen::{
    GenModel, Generated, args_exec, args_of, assoc_put, fields_exec, fields_of, flag_check,
    flags_enum, flags_enum_text, getters_exec, getters_of, idp, inits_of, return_chain,
    return_chain_exec, tit,
};
use crate::ir::{Constructor, CtorModel, ParamModel, Scheme, TypeDef, TypeDefModel, table_get_index, table_len, table_view};
use crate::resolve::{spec_full_data_name, spec_full_type_name};
use crate::text::{contains_str, join, join_exec, views};

verus! {

// ---------------------------------------------------------------------------
// Per-type accumulators
// ---------------------------------------------------------------------------

/// Text gathered over the constructors of one result type before its type
/// class is written.
pub struct TypeAcc {
    pub with_data: bool,
    pub creators_decls: String,
    pub creators_bodies: String,
    pub constructs_text: String,
    pub constructs_bodies: String,
    pub switch_lines: String,
    pub friend_decl: String,
    pub getters: String,
    pub visitor: String,
    pub reader: String,
    pub writer: String,
    pub new_fast: String,
}

#[verifier::ext_equal]
pub struct TypeAccModel {
    pub with_data: bool,
    pub creators_decls: Seq<char>,
    pub creators_bodies: Seq<char>,
    pub constructs_text: Seq<char>,
    pub constructs_bodies: Seq<char>,
    pub switch_lines: Seq<char>,
    pub friend_decl: Seq<char>,
    pub getters: Seq<char>,
    pub visitor: Seq<char>,
    pub reader: Seq<char>,
    pub writer: Seq<char>,
    pub new_fast: Seq<char>,
}

impl View for TypeAcc {
    type V = TypeAccModel;

    open spec fn view(&self) -> TypeAccModel {
        TypeAccModel {
            with_data: self.with_data,
            creators_decls: self.creators_decls@,
            creators_bodies: self.creators_bodies@,
            constructs_text: self.constructs_text@,
            constructs_bodies: self.constructs_bodies@,
            switch_lines: self.switch_lines@,
            friend_decl: self.friend_decl@,
            getters: self.getters@,
            visitor: self.visitor@,
            reader: self.reader@,
            writer: self.writer@,
            new_fast: self.new_fast@,
        }
    }
}

pub open spec fn acc_empty() -> TypeAccModel {
    TypeAccModel {
        with_data: false,
        creators_decls: Seq::empty(),
        creators_bodies: Seq::empty(),
        constructs_text: Seq::empty(),
        constructs_bodies: Seq::empty(),
        switch_lines: Seq::empty(),
        friend_decl: Seq::empty(),
        getters: Seq::empty(),
        visitor: Seq::empty(),
        reader: Seq::empty(),
        writer: Seq::empty(),
        new_fast: Seq::empty(),
    }
}

fn acc_new() -> (a: TypeAcc)
    ensures
        a@ == acc_empty(),
{
    let a = TypeAcc {
        with_data: false,
        creators_decls: String::new(),
        creators_bodies: String::new(),
        constructs_text: String::new(),
        constructs_bodies: String::new(),
        switch_lines: String::new(),
        friend_decl: String::new(),
        getters: String::new(),
        visitor: String::new(),
        reader: String::new(),
        writer: String::new(),
        new_fast: String::new(),
    };
    assert(a@ =~= acc_empty());
    a
}

// ---------------------------------------------------------------------------
// Per-constructor pieces
// ---------------------------------------------------------------------------

/// `is_<flag>()` declarations and definitions for the `true` flags.
pub open spec fn is_flag_texts(df: Seq<char>, c: CtorModel, conds: Seq<(Seq<char>, u32)>) -> (Seq<char>, Seq<char>)
    decreases conds.len(),
{
    if conds.len() == 0 {
        (Seq::empty(), Seq::empty())
    } else {
        let r = is_flag_texts(df, c, conds.drop_last());
        let pname = conds.last().0;
        if c.trivial_conditions.contains(pname) {
            (
                r.0 + "\t[[nodiscard]] bool is_"@ + pname + "() const;\n"@,
                r.1 + "bool "@ + df + "::is_"@ + pname + "() const {\n"@ + "\treturn _"@ + c.flags_name
                    + ".v & Flag::f_"@ + pname + ";\n}\n"@,
            )
        } else {
            r
        }
    }
}

fn is_flag_exec(df: &str, c: &Constructor) -> (r: (String, String))
    ensures
        (r.0@, r.1@) == is_flag_texts(df@, c@, c@.conditions),
{
    let ghost conds = c@.conditions;
    let mut d = String::new();
    let mut b = String::new();
    let mut i: usize = 0;
    while i < c.conditions.len()
        invariant
            i <= c.conditions@.len(),
            conds == c@.conditions,
            conds.len() == c.conditions@.len(),
            (d@, b@) == is_flag_texts(df@, c@, conds.take(i as int)),
        decreases c.conditions.len() - i,
    {
        assert(conds.take(i + 1).drop_last() =~= conds.take(i as int));
        assert(conds.take(i + 1).last() == (c.conditions@[i as int].0@, c.conditions@[i as int].1));
        let pname = c.conditions[i].0.as_str();
        if contains_str(&c.trivial_conditions, pname) {
            d.append("\t[[nodiscard]] bool is_");
            d.append(pname);
            d.append("() const;\n");
            b.append("bool ");
            b.append(df);
            b.append("::is_");
            b.append(pname);
            b.append("() const {\n");
            b.append("\treturn _");
            b.append(c.flags_name.as_str());
            b.append(".v & Flag::f_");
            b.append(pname);
            b.append(";\n}\n");
        }
        i += 1;
    }
    assert(conds.take(conds.len() as int) =~= conds);
    (d, b)
}

/// Read chain of a data class over its stored parameters.
pub open spec fn type_read_lines(cfg: CodegenScheme, c: CtorModel, ps: Seq<ParamModel>) -> Seq<char>
    decreases ps.len(),
{
    if ps.len() == 0 {
        Seq::empty()
    } else {
        let rest = type_read_lines(cfg, c, ps.drop_last());
        let k = ps.last().name;
        if !is_stored(c, k) {
            rest
        } else if has_cond(c.conditions, k) {
            rest + "\t\t&& "@ + "(v"@ + k + "() ? _"@ + k + ".read(from, end) : ((_"@ + k + " = "@
                + spec_full_type_name(cfg, ps.last().tl_type) + "()), true))\n"@
        } else {
            rest + "\t\t&& "@ + "_"@ + k + ".read(from, end)\n"@
        }
    }
}

/// Write statements of a data class over its stored parameters, one tab
/// deeper inside a type switch.
pub open spec fn type_write_lines(c: CtorModel, ps: Seq<ParamModel>, with_type: bool) -> Seq<char>
    decreases ps.len(),
{
    if ps.len() == 0 {
        Seq::empty()
    } else {
        let rest = type_write_lines(c, ps.drop_last(), with_type);
        let k = ps.last().name;
        if !is_stored(c, k) {
            rest
        } else {
            let w = if with_type { rest + "\t"@ } else { rest };
            if has_cond(c.conditions, k) {
                w + "\tif (const auto v"@ + k + " = v.v"@ + k + "()) v"@ + k + "->write(to);\n"@
            } else {
                w + "\tv.v"@ + k + "().write(to);\n"@
            }
        }
    }
}

pub proof fn lemma_type_chain_len(cfg: CodegenScheme, c: CtorModel, ps: Seq<ParamModel>)
    ensures
        type_read_lines(cfg, c, ps).len() == 0 || type_read_lines(cfg, c, ps).len() >= 5,
    decreases ps.len(),
{
    reveal_strlit("\t\t&& ");
    if ps.len() > 0 {
        lemma_type_chain_len(cfg, c, ps.drop_last());
    }
}

fn type_read_write_exec(config: &CodegenScheme, c: &Constructor, with_type: bool) -> (r: (String, String))
    ensures
        r.0@ == type_read_lines(*config, c@, c@.params),
        r.1@ == type_write_lines(c@, c@.params, with_type),
{
    let ghost ps = c@.params;
    let mut rd = String::new();
    let mut wr = String::new();
    let mut i: usize = 0;
    while i < c.params.len()
        invariant
            i <= c.params@.len(),
            ps == c@.params,
            ps.len() == c.params@.len(),
            rd@ == type_read_lines(*config, c@, ps.take(i as int)),
            wr@ == type_write_lines(c@, ps.take(i as int), with_type),
        decreases c.params.len() - i,
    {
        assert(ps.take(i + 1).drop_last() =~= ps.take(i as int));
        assert(ps.take(i + 1).last() == c.params@[i as int]@);
        let k = c.params[i].name.as_str();
        if is_stored_exec(c, k) {
            if with_type {
                wr.append("\t");
            }
            if is_cond(c, k) {
                let v = full_type(config, c.params[i].tl_type.as_str());
                rd.append("\t\t&& ");
                rd.append("(v");
                rd.append(k);
                rd.append("() ? _");
                rd.append(k);
                rd.append(".read(from, end) : ((_");
                rd.append(k);
                rd.append(" = ");
                rd.append(v.as_str());
                rd.append("()), true))\n");
                wr.append("\tif (const auto v");
                wr.append(k);
                wr.append(" = v.v");
                wr.append(k);
                wr.append("()) v");
                wr.append(k);
                wr.append("->write(to);\n");
            } else {
                rd.append("\t\t&& ");
                rd.append("_");
                rd.append(k);
                rd.append(".read(from, end)\n");
                wr.append("\tv.v");
                wr.append(k);
                wr.append("().write(to);\n");
            }
        }
        i += 1;
    }
    assert(ps.take(ps.len() as int) =~= ps);
    (rd, wr)
}

/// `name_` for every stored parameter: the creator's argument list.
pub open spec fn arg_names_of(c: CtorModel, ps: Seq<ParamModel>) -> Seq<Seq<char>> {
    stored_of(c, ps).map_values(|p: ParamModel| p.name + "_"@)
}

fn arg_names_exec(c: &Constructor) -> (r: Vec<String>)
    ensures
        views(r@) == arg_names_of(c@, c@.params),
{
    let ghost ps = c@.params;
    let mut a: Vec<String> = Vec::new();
    let mut i: usize = 0;
    while i < c.params.len()
        invariant
            i <= c.params@.len(),
            ps == c@.params,
            ps.len() == c.params@.len(),
            views(a@) == arg_names_of(c@, ps.take(i as int)),
        decreases c.params.len() - i,
    {
        assert(ps.take(i + 1).drop_last() =~= ps.take(i as int));
        assert(ps.take(i + 1).last() == c.params@[i as int]@);
        let p = &c.params[i];
        if is_stored_exec(c, p.name.as_str()) {
            let mut s = p.name.clone();
            s.append("_");
            let ghost oa = a@;
            a.push(s);
            assert(views(a@) =~= views(oa).push(s@));
            assert(arg_names_of(c@, ps.take(i + 1)) =~= arg_names_of(c@, ps.take(i as int)).push(s@));
        } else {
            assert(arg_names_of(c@, ps.take(i + 1)) =~= arg_names_of(c@, ps.take(i as int)));
        }
        i += 1;
    }
    assert(ps.take(ps.len() as int) =~= ps);
    a
}

/// The data class text of one constructor.
pub open spec fn data_text(cfg: CodegenScheme, rw: bool, c: CtorModel) -> Seq<char> {
    let df = spec_full_data_name(cfg, c.name);
    let prime = cfg.types.prime@;
    let stored = stored_of(c, c.params).len() > 0;
    let d = if stored {
        "\nclass "@ + df + " : public tl::details::type_data {\n"@
    } else {
        "\nclass "@ + df + " {\n"@
    };
    let d = d + "public:\n"@ + "\ttemplate <typename Other>\n"@
        + "\tstatic constexpr bool Is() { return std::is_same_v<std::decay_t<Other>, "@ + df + ">; };\n\n"@;
    let d = if c.flags_name.len() > 0 {
        let d = d + flags_enum_text(c.conditions, c.flags64_name.len() > 0);
        if c.conditions.len() > 0 { d + is_flag_texts(df, c, c.conditions).0 + "\n"@ } else { d }
    } else {
        d
    };
    let d = if stored {
        let d = d + "\t"@ + df + "();\n"@ + "\t"@ + df + "("@ + join(args_of(cfg, c, c.params, false), ", "@) + ");\n"@;
        let d = if rw {
            d + "\n"@ + "\t[[nodiscard]] bool read(const "@ + prime + " *&from, const "@ + prime + " *end);\n"@
        } else {
            d
        };
        d + "\n"@ + getters_of(cfg, df, c, c.params).0 + "\n"@ + "private:\n"@ + fields_of(cfg, c, c.params, false) + "\n"@
    } else {
        d
    };
    d + "};\n"@
}

fn data_text_exec(config: &CodegenScheme, rw: bool, c: &Constructor, df: &str, jp: &str, stored: bool) -> (r: String)
    requires
        df@ == spec_full_data_name(*config, c@.name),
        jp@ == join(args_of(*config, c@, c@.params, false), ", "@),
        stored == (stored_of(c@, c@.params).len() > 0),
    ensures
        r@ == data_text(*config, rw, c@),
{
    let prime = config.types.prime.as_str();
    let mut d = if stored {
        let mut s = String::from_str("\nclass ");
        s.append(df);
        s.append(" : public tl::details::type_data {\n");
        s
    } else {
        let mut s = String::from_str("\nclass ");
        s.append(df);
        s.append(" {\n");
        s
    };
    d.append("public:\n");
    d.append("\ttemplate <typename Other>\n");
    d.append("\tstatic constexpr bool Is() { return std::is_same_v<std::decay_t<Other>, ");
    d.append(df);
    d.append(">; };\n\n");
    if c.flags_name.unicode_len() > 0 {
        let (e, _) = flags_enum(c, c.flags64_name.unicode_len() > 0);
        d.append(e.as_str());
        if c.conditions.len() > 0 {
            let (isd, _) = is_flag_exec(df, c);
            d.append(isd.as_str());
            d.append("\n");
        }
    }
    if stored {
        d.append("\t");
        d.append(df);
        d.append("();\n");
        d.append("\t");
        d.append(df);
        d.append("(");
        d.append(jp);
        d.append(");\n");
        if rw {
            d.append("\n");
            d.append("\t[[nodiscard]] bool read(const ");
            d.append(prime);
            d.append(" *&from, const ");
            d.append(prime);
            d.append(" *end);\n");
        }
        let (gd, _) = getters_exec(config, df, c);
        let f = fields_exec(config, c, false);
        d.append("\n");
        d.append(gd.as_str());
        d.append("\n");
        d.append("private:\n");
        d.append(f.as_str());
        d.append("\n");
    }
    d.append("};\n");
    d
}

/// `c_<name>()` accessor body opening, with the type check inside a type
/// switch.
pub open spec fn accessor_head(cfg: CodegenScheme, full: Seq<char>, df: Seq<char>, with_type: bool, name: Seq<char>) -> Seq<char> {
    let h = "const "@ + df + " &"@ + full + "::c_"@ + name + "() const {\n"@;
    if with_type { h + "\tExpects(_type == "@ + idp(cfg) + name + ");\n\n"@ } else { h }
}

/// Definitions one constructor adds to the type's out-of-class bodies.
pub open spec fn ctor_bodies(cfg: CodegenScheme, rw: bool, opt: bool, full: Seq<char>, with_type: bool, with_data: bool, c: CtorModel) -> Seq<char> {
    let df = spec_full_data_name(cfg, c.name);
    let prime = cfg.types.prime@;
    let stored = stored_of(c, c.params).len() > 0;
    let b = if c.flags_name.len() > 0 && c.conditions.len() > 0 {
        is_flag_texts(df, c, c.conditions).1
    } else {
        Seq::empty()
    };
    if stored {
        let b = b + df + "::"@ + df + "() = default;\n"@ + accessor_head(cfg, full, df, with_type, c.name)
            + "\treturn queryData<"@ + df + ">();\n}\n"@;
        let b = if opt && with_data && !with_type {
            b + "const "@ + df + " &"@ + full + "::data() const {\n\treturn queryData<"@ + df + ">();\n}\n"@
        } else {
            b
        };
        let b = b + full + "::"@ + full + "(const "@ + df + " *data) : type_owner(data)"@;
        let b = if with_type { b + ", _type("@ + idp(cfg) + c.name + ")"@ } else { b };
        let b = b + " {\n}\n"@ + df + "::"@ + df + "("@ + join(args_of(cfg, c, c.params, false), ", "@)
            + ") : "@ + join(inits_of(c, c.params), ", "@) + " {\n}\n"@;
        let b = if rw {
            b + "bool "@ + df + "::read(const "@ + prime + " *&from, const "@ + prime + " *end) {\n"@
                + return_chain(type_read_lines(cfg, c, c.params)) + "}\n"@
        } else {
            b
        };
        b + getters_of(cfg, df, c, c.params).1
    } else {
        b + accessor_head(cfg, full, df, with_type, c.name) + "\tstatic const "@ + df + " result;\n\treturn result;\n}\n"@
    }
}

fn accessor_head_exec(config: &CodegenScheme, full: &str, df: &str, with_type: bool, name: &str) -> (r: String)
    ensures
        r@ == accessor_head(*config, full@, df@, with_type, name@),
{
    let mut h = String::from_str("const ");
    h.append(df);
    h.append(" &");
    h.append(full);
    h.append("::c_");
    h.append(name);
    h.append("() const {\n");
    if with_type {
        let idp = config.id_prefix();
        h.append("\tExpects(_type == ");
        h.append(idp.as_str());
        h.append(name);
        h.append(");\n\n");
    }
    h
}

fn ctor_bodies_exec(
    config: &CodegenScheme,
    rw: bool,
    opt: bool,
    full: &str,
    with_type: bool,
    with_data: bool,
    c: &Constructor,
    df: &str,
    jp: &str,
    ji: &str,
    stored: bool,
) -> (r: String)
    requires
        df@ == spec_full_data_name(*config, c@.name),
        jp@ == join(args_of(*config, c@, c@.params, false), ", "@),
        ji@ == join(inits_of(c@, c@.params), ", "@),
        stored == (stored_of(c@, c@.params).len() > 0),
    ensures
        r@ == ctor_bodies(*config, rw, opt, full@, with_type, with_data, c@),
{
    let prime = config.types.prime.as_str();
    let mut b = if c.flags_name.unicode_len() > 0 && c.conditions.len() > 0 {
        let (_, isb) = is_flag_exec(df, c);
        isb
    } else {
        String::new()
    };
    let head = accessor_head_exec(config, full, df, with_type, c.name.as_str());
    if stored {
        b.append(df);
        b.append("::");
        b.append(df);
        b.append("() = default;\n");
        b.append(head.as_str());
        b.append("\treturn queryData<");
        b.append(df);
        b.append(">();\n}\n");
        if opt && with_data && !with_type {
            b.append("const ");
            b.append(df);
            b.append(" &");
            b.append(full);
            b.append("::data() const {\n\treturn queryData<");
            b.append(df);
            b.append(">();\n}\n");
        }
        b.append(full);
        b.append("::");
        b.append(full);
        b.append("(const ");
        b.append(df);
        b.append(" *data) : type_owner(data)");
        if with_type {
            let idp = config.id_prefix();
            b.append(", _type(");
            b.append(idp.as_str());
            b.append(c.name.as_str());
            b.append(")");
        }
        b.append(" {\n}\n");
        b.append(df);
        b.append("::");
        b.append(df);
        b.append("(");
        b.append(jp);
        b.append(") : ");
        b.append(ji);
        b.append(" {\n}\n");
        if rw {
            let (rd, _) = type_read_write_exec(config, c, with_type);
            proof { lemma_type_chain_len(*config, c@, c@.params); }
            let ret = return_chain_exec(&rd);
            b.append("bool ");
            b.append(df);
            b.append("::read(const ");
            b.append(prime);
            b.append(" *&from, const ");
            b.append(prime);
            b.append(" *end) {\n");
            b.append(ret.as_str());
            b.append("}\n");
        }
        let (_, gb) = getters_exec(config, df, c);
        b.append(gb.as_str());
    } else {
        b.append(head.as_str());
        b.append("\tstatic const ");
        b.append(df);
        b.append(" result;\n\treturn result;\n}\n");
    }
    b
}

/// Reader and writer cases of one constructor.
pub open spec fn ctor_reader_writer(cfg: CodegenScheme, with_type: bool, c: CtorModel) -> (Seq<char>, Seq<char>) {
    let df = spec_full_data_name(cfg, c.name);
    let more = c.params.len() > c.trivial_conditions.len();
    let wl = type_write_lines(c, c.params, with_type);
    if with_type {
        let r = "\tcase "@ + idp(cfg) + c.name + ": _type = cons; "@;
        if more {
            (
                r + "{\n"@ + "\t\tif (const auto data = new "@ + df + "(); data->read(from, end)) {\n"@
                    + "\t\t\tsetData(data);\n\t\t} else {\n"@ + "\t\t\tdelete data;\n\t\t\treturn false;\n\t\t}\n"@
                    + "\t} break;\n"@,
                "\tcase "@ + idp(cfg) + c.name + ": {\n"@ + "\t\tconst "@ + df + " &v = c_"@ + c.name + "();\n"@
                    + wl + "\t} break;\n"@,
            )
        } else {
            (r + "break;\n"@, Seq::empty())
        }
    } else if more {
        (
            "\tif (const auto data = new "@ + df + "(); data->read(from, end)) {\n"@
                + "\t\tsetData(data);\n\t} else {\n"@ + "\t\tdelete data;\n\t\treturn false;\n\t}\n"@,
            "\tconst "@ + df + " &v = c_"@ + c.name + "();\n"@ + wl,
        )
    } else {
        (Seq::empty(), Seq::empty())
    }
}

fn ctor_reader_writer_exec(config: &CodegenScheme, with_type: bool, c: &Constructor, df: &str) -> (r: (String, String))
    requires
        df@ == spec_full_data_name(*config, c@.name),
    ensures
        (r.0@, r.1@) == ctor_reader_writer(*config, with_type, c@),
{
    let more = c.params.len() > c.trivial_conditions.len();
    let (_, wl) = type_read_write_exec(config, c, with_type);
    let idp = config.id_prefix();
    if with_type {
        let mut r = String::from_str("\tcase ");
        r.append(idp.as_str());
        r.append(c.name.as_str());
        r.append(": _type = cons; ");
        if more {
            r.append("{\n");
            r.append("\t\tif (const auto data = new ");
            r.append(df);
            r.append("(); data->read(from, end)) {\n");
            r.append("\t\t\tsetData(data);\n\t\t} else {\n");
            r.append("\t\t\tdelete data;\n\t\t\treturn false;\n\t\t}\n");
            r.append("\t} break;\n");
            let mut w = String::from_str("\tcase ");
            w.append(idp.as_str());
            w.append(c.name.as_str());
            w.append(": {\n");
            w.append("\t\tconst ");
            w.append(df);
            w.append(" &v = c_");
            w.append(c.name.as_str());
            w.append("();\n");
            w.append(wl.as_str());
            w.append("\t} break;\n");
            (r, w)
        } else {
            r.append("break;\n");
            (r, String::new())
        }
    } else if more {
        let mut r = String::from_str("\tif (const auto data = new ");
        r.append(df);
        r.append("(); data->read(from, end)) {\n");
        r.append("\t\tsetData(data);\n\t} else {\n");
        r.append("\t\tdelete data;\n\t\treturn false;\n\t}\n");
        let mut w = String::from_str("\tconst ");
        w.append(df);
        w.append(" &v = c_");
        w.append(c.name.as_str());
        w.append("();\n");
        w.append(wl.as_str());
        (r, w)
    } else {
        (String::new(), String::new())
    }
}

/// The creator proxy, the factory declaration and its definition.
pub open spec fn ctor_creators(cfg: CodegenScheme, full: Seq<char>, with_type: bool, c: CtorModel) -> (Seq<char>, Seq<char>, Seq<char>) {
    let df = spec_full_data_name(cfg, c.name);
    let jcp = join(args_of(cfg, c, c.params, false), ", "@);
    let jcl = join(arg_names_of(c, c.params), ", "@);
    let creator_full = spec_creator_namespace_full(cfg.namespaces.global@, cfg.namespaces.creator@);
    let ret = if c.params.len() > c.trivial_conditions.len() {
        "\t\treturn "@ + full + "(new "@ + df + "("@ + jcl + "));\n"@
    } else if with_type {
        "\t\treturn "@ + full + "("@ + idp(cfg) + c.name + ");\n"@
    } else {
        "\t\treturn "@ + full + "();\n"@
    };
    (
        "\tinline static "@ + full + " new_"@ + c.name + "("@ + jcp + ") {\n"@ + ret + "\t}\n"@,
        full + " "@ + cfg.prefixes.construct@ + c.name + "("@ + jcp + ");\n"@,
        full + " "@ + cfg.prefixes.construct@ + c.name + "("@ + jcp + ") {\n"@ + "\treturn ::"@ + creator_full
            + "::TypeCreator::new_"@ + c.name + "("@ + jcl + ");\n}\n"@,
    )
}

fn ctor_creators_exec(config: &CodegenScheme, full: &str, with_type: bool, c: &Constructor, df: &str, jcp: &str) -> (r: (String, String, String))
    requires
        df@ == spec_full_data_name(*config, c@.name),
        jcp@ == join(args_of(*config, c@, c@.params, false), ", "@),
    ensures
        (r.0@, r.1@, r.2@) == ctor_creators(*config, full@, with_type, c@),
{
    let names = arg_names_exec(c);
    let jcl = join_exec(&names, ", ");
    let creator_full = config.creator_namespace_full();
    let ret = if c.params.len() > c.trivial_conditions.len() {
        let mut s = String::from_str("\t\treturn ");
        s.append(full);
        s.append("(new ");
        s.append(df);
        s.append("(");
        s.append(jcl.as_str());
        s.append("));\n");
        s
    } else if with_type {
        let idp = config.id_prefix();
        let mut s = String::from_str("\t\treturn ");
        s.append(full);
        s.append("(");
        s.append(idp.as_str());
        s.append(c.name.as_str());
        s.append(");\n");
        s
    } else {
        let mut s = String::from_str("\t\treturn ");
        s.append(full);
        s.append("();\n");
        s
    };
    let mut p = String::from_str("\tinline static ");
    p.append(full);
    p.append(" new_");
    p.append(c.name.as_str());
    p.append("(");
    p.append(jcp);
    p.append(") {\n");
    p.append(ret.as_str());
    p.append("\t}\n");
    let mut d = String::from_str(full);
    d.append(" ");
    d.append(config.prefixes.construct.as_str());
    d.append(c.name.as_str());
    d.append("(");
    d.append(jcp);
    d.append(");\n");
    let mut b = String::from_str(full);
    b.append(" ");
    b.append(config.prefixes.construct.as_str());
    b.append(c.name.as_str());
    b.append("(");
    b.append(jcp);
    b.append(") {\n");
    b.append("\treturn ::");
    b.append(creator_full.as_str());
    b.append("::TypeCreator::new_");
    b.append(c.name.as_str());
    b.append("(");
    b.append(jcl.as_str());
    b.append(");\n}\n");
    (p, d, b)
}

/// What one constructor of a result type adds to the per-type accumulators
/// and to the pass.
pub open spec fn type_ctor_step(cfg: CodegenScheme, rw: bool, opt: bool, full: Seq<char>, with_type: bool, c: CtorModel, s: (TypeAccModel, GenModel)) -> (TypeAccModel, GenModel) {
    let acc = s.0;
    let st = s.1;
    let df = spec_full_data_name(cfg, c.name);
    let stored = stored_of(c, c.params).len() > 0;
    let wd = acc.with_data || stored;
    let ip = idp(cfg);
    let cr = ctor_creators(cfg, full, with_type, c);
    let rwt = ctor_reader_writer(cfg, with_type, c);
    let creator_full = spec_creator_namespace_full(cfg.namespaces.global@, cfg.namespaces.creator@);
    let getters = acc.getters + "\t[[nodiscard]] const "@ + df + " &c_"@ + c.name + "() const;\n"@;
    (
        TypeAccModel {
            with_data: wd,
            creators_decls: acc.creators_decls + cr.1,
            creators_bodies: acc.creators_bodies + cr.2,
            constructs_text: if stored {
                acc.constructs_text + "\texplicit "@ + full + "(const "@ + df + " *data);\n"@
            } else {
                acc.constructs_text
            },
            constructs_bodies: acc.constructs_bodies + ctor_bodies(cfg, rw, opt, full, with_type, wd, c),
            switch_lines: if stored {
                acc.switch_lines + "\tcase "@ + ip + c.name + ": "@ + "setData(new "@ + df + "()); "@ + "break;\n"@
            } else {
                acc.switch_lines + "\tcase "@ + ip + c.name + ": "@ + "break;\n"@
            },
            friend_decl: if acc.friend_decl.len() == 0 {
                "\tfriend class ::"@ + creator_full + "::TypeCreator;\n"@
            } else {
                acc.friend_decl
            },
            getters: if opt && wd && !with_type {
                getters + "\t[[nodiscard]] const "@ + df + " &data() const;\n"@
            } else {
                getters
            },
            visitor: acc.visitor + "\tcase "@ + ip + c.name + ": return base::match_method(c_"@ + c.name
                + "(), std::forward<Method>(method), std::forward<Methods>(methods)...);\n"@,
            reader: acc.reader + rwt.0,
            writer: acc.writer + rwt.1,
            new_fast: if stored { "new "@ + df + "()"@ } else { acc.new_fast },
        },
        GenModel {
            data_texts: st.data_texts + data_text(cfg, rw, c),
            forwards: st.forwards + "class "@ + df + ";\n"@,
            creator_proxy_text: st.creator_proxy_text + cr.0,
            parent_flags_check: if c.flags_name.len() > 0 {
                assoc_put(st.parent_flags_check, df, flag_check(c.conditions))
            } else {
                st.parent_flags_check
            },
            ..st
        },
    )
}

fn type_ctor_exec(
    config: &CodegenScheme,
    rw: bool,
    opt: bool,
    full: &str,
    with_type: bool,
    c: &Constructor,
    acc: &mut TypeAcc,
    g: &mut Generated,
)
    ensures
        (final(acc)@, final(g)@) == type_ctor_step(*config, rw, opt, full@, with_type, c@, (old(acc)@, old(g)@)),
{
    let df = full_data(config, c.name.as_str());
    let (args, inits) = args_exec(config, c, false);
    let stored = args.len() > 0;
    let jp = join_exec(&args, ", ");
    let ji = join_exec(&inits, ", ");
    let wd = acc.with_data || stored;
    let idp = config.id_prefix();
    let dt = data_text_exec(config, rw, c, df.as_str(), jp.as_str(), stored);
    let cb = ctor_bodies_exec(config, rw, opt, full, with_type, wd, c, df.as_str(), jp.as_str(), ji.as_str(), stored);
    let (rd, wr) = ctor_reader_writer_exec(config, with_type, c, df.as_str());
    let (cp, cd, cbody) = ctor_creators_exec(config, full, with_type, c, df.as_str(), jp.as_str());

    acc.with_data = wd;
    acc.creators_decls.append(cd.as_str());
    acc.creators_bodies.append(cbody.as_str());
    if stored {
        acc.constructs_text.append("\texplicit ");
        acc.constructs_text.append(full);
        acc.constructs_text.append("(const ");
        acc.constructs_text.append(df.as_str());
        acc.constructs_text.append(" *data);\n");
    }
    acc.constructs_bodies.append(cb.as_str());
    acc.switch_lines.append("\tcase ");
    acc.switch_lines.append(idp.as_str());
    acc.switch_lines.append(c.name.as_str());
    acc.switch_lines.append(": ");
    if stored {
        acc.switch_lines.append("setData(new ");
        acc.switch_lines.append(df.as_str());
        acc.switch_lines.append("()); ");
    }
    acc.switch_lines.append("break;\n");
    if acc.friend_decl.unicode_len() == 0 {
        let creator_full = config.creator_namespace_full();
        let mut f = String::from_str("\tfriend class ::");
        f.append(creator_full.as_str());
        f.append("::TypeCreator;\n");
        acc.friend_decl = f;
    }
    acc.getters.append("\t[[nodiscard]] const ");
    acc.getters.append(df.as_str());
    acc.getters.append(" &c_");
    acc.getters.append(c.name.as_str());
    acc.getters.append("() const;\n");
    if opt && wd && !with_type {
        acc.getters.append("\t[[nodiscard]] const ");
        acc.getters.append(df.as_str());
        acc.getters.append(" &data() const;\n");
    }
    acc.visitor.append("\tcase ");
    acc.visitor.append(idp.as_str());
    acc.visitor.append(c.name.as_str());
    acc.visitor.append(": return base::match_method(c_");
    acc.visitor.append(c.name.as_str());
    acc.visitor.append("(), std::forward<Method>(method), std::forward<Methods>(methods)...);\n");
    acc.reader.append(rd.as_str());
    acc.writer.append(wr.as_str());
    if stored {
        let mut nf = String::from_str("new ");
        nf.append(df.as_str());
        nf.append("()");
        acc.new_fast = nf;
    }

    g.data_texts.append(dt.as_str());
    g.forwards.append("class ");
    g.forwards.append(df.as_str());
    g.forwards.append(";\n");
    g.creator_proxy_text.append(cp.as_str());
    if c.flags_name.unicode_len() > 0 {
        let (_, check) = flags_enum(c, c.flags64_name.unicode_len() > 0);
        crate::emit::gen::put_map(&mut g.parent_flags_check, df, check);
    }
    assert(acc@ =~= type_ctor_step(*config, rw, opt, full@, with_type, c@, (old(acc)@, old(g)@)).0);
    assert(g@ =~= type_ctor_step(*config, rw, opt, full@, with_type, c@, (old(acc)@, old(g)@)).1);
}


// ---------------------------------------------------------------------------
// Per-type text
// ---------------------------------------------------------------------------

pub open spec fn type_ctors_fold(cfg: CodegenScheme, rw: bool, opt: bool, full: Seq<char>, with_type: bool, cs: Seq<CtorModel>, s: (TypeAccModel, GenModel)) -> (TypeAccModel, GenModel)
    decreases cs.len(),
{
    if cs.len() == 0 {
        s
    } else {
        type_ctor_step(cfg, rw, opt, full, with_type, cs.last(), type_ctors_fold(cfg, rw, opt, full, with_type, cs.drop_last(), s))
    }
}

/// Some constructor has a stored field.
pub open spec fn any_stored(cs: Seq<CtorModel>) -> bool
    decreases cs.len(),
{
    cs.len() > 0 && (any_stored(cs.drop_last()) || stored_of(cs.last(), cs.last().params).len() > 0)
}

pub proof fn lemma_with_data(cfg: CodegenScheme, rw: bool, opt: bool, full: Seq<char>, with_type: bool, cs: Seq<CtorModel>, st: GenModel)
    ensures
        type_ctors_fold(cfg, rw, opt, full, with_type, cs, (acc_empty(), st)).0.with_data == any_stored(cs),
    decreases cs.len(),
{
    if cs.len() > 0 {
        lemma_with_data(cfg, rw, opt, full, with_type, cs.drop_last(), st);
    }
}

/// `using SingleDataType = <data class>;` per constructor.
pub open spec fn single_data_lines(cfg: CodegenScheme, cs: Seq<CtorModel>) -> Seq<char>
    decreases cs.len(),
{
    if cs.len() == 0 {
        Seq::empty()
    } else {
        single_data_lines(cfg, cs.drop_last()) + "\tusing SingleDataType = "@
            + spec_full_data_name(cfg, cs.last().name) + ";\n"@
    }
}

/// The type class of one result type.
pub open spec fn type_class_text(cfg: CodegenScheme, rw: bool, opt: bool, key: Seq<char>, def: TypeDefModel, acc: TypeAccModel) -> Seq<char> {
    let full = spec_full_type_name(cfg, key);
    let wd = acc.with_data;
    let wt = def.with_type;
    let prime = cfg.types.prime@;
    let t = "\nclass "@ + full;
    let t = if wd { t + " : private tl::details::type_owner"@ } else { t };
    let t = t + " {\npublic:\n"@ + "\t"@ + full + "();\n"@;
    let t = if def.nullable { t + "\t"@ + full + "(std::nullptr_t);\n"@ } else { t };
    let t = t + "\n"@;
    let t = if def.nullable { t + "\texplicit operator bool() const;\n"@ } else { t };
    let t = t + acc.getters + "\n"@ + "\ttemplate <typename Method, typename ...Methods>\n"@
        + "\tdecltype(auto) match(Method &&method, Methods &&...methods) const;\n"@
        + "\t"@ + tit(cfg) + " type() const;\n"@;
    let t = if rw {
        let t = t + "\n"@ + "\t[[nodiscard]] bool read(const "@ + prime + " *&from, const "@ + prime + " *end, "@
            + tit(cfg) + " cons"@;
        let t = if !wt { t + " = "@ + idp(cfg) + def.ctors.last().name } else { t };
        t + ");\n"@ + "\ttemplate <typename Accumulator>\n"@ + "\tvoid write(Accumulator &to) const;\n"@
    } else {
        t
    };
    let t = t + "\n\tusing ResponseType = void;\n"@;
    let t = if opt {
        if wd && !wt {
            t + single_data_lines(cfg, def.ctors)
        } else {
            t + "\tusing SingleDataType = NotSingleDataTypePlaceholder;\n"@
        }
    } else {
        t
    };
    let t = t + "\nprivate:\n"@;
    let t = if wt { t + "\texplicit "@ + full + "("@ + tit(cfg) + " type);\n"@ } else { t };
    let t = if wd { t + acc.constructs_text } else { t };
    let t = if acc.friend_decl.len() > 0 { t + "\n"@ + acc.friend_decl } else { t };
    let t = if wt { t + "\n\t"@ + tit(cfg) + " _type = 0;\n"@ } else { t };
    let t = t + "};\n"@;
    if rw {
        t + "using "@ + spec_full_type_name(cfg, def.boxed_name) + " = tl::boxed<"@ + full + ">;\n"@
    } else {
        t
    }
}

/// The out-of-class definitions of one result type.
pub open spec fn type_methods_text(cfg: CodegenScheme, rw: bool, key: Seq<char>, def: TypeDefModel, acc: TypeAccModel) -> Seq<char> {
    let full = spec_full_type_name(cfg, key);
    let wd = acc.with_data;
    let wt = def.with_type;
    let nul = def.nullable;
    let prime = cfg.types.prime@;
    let buf = cfg.types.buffer@;
    let first = def.ctors[0].name;
    let m = if wd && !wt {
        "\n"@ + full + "::"@ + full + "() : type_owner("@ + acc.new_fast + ") {\n}\n"@
    } else {
        "\n"@ + full + "::"@ + full + "() = default;\n"@
    };
    let m = if nul {
        m + full + "::"@ + full + "(std::nullptr_t) {\n}\n"@ + full + "::operator bool() const {\n\t"@
            + (if wd { "\treturn hasData();\n"@ } else { "\treturn _type != 0;\n"@ }) + "}\n"@
    } else {
        m
    };
    let type_body = if wt {
        if nul { "\treturn _type;\n"@ } else { "\tExpects(_type != 0);\n\n\treturn _type;\n"@ }
    } else if nul {
        "\treturn hasData() ? "@ + idp(cfg) + first + " : "@ + tit(cfg) + "(0);\n"@
    } else {
        "\treturn "@ + idp(cfg) + first + ";\n"@
    };
    let m = m + tit(cfg) + " "@ + full + "::type() const {\n"@ + type_body + "}\n"@;
    let m = if rw {
        let m = m + "bool "@ + full + "::read(const "@ + prime + " *&from, const "@ + prime + " *end, "@ + tit(cfg)
            + " cons) {\n"@;
        let m = if wd && !wt { m + "\tif (cons != "@ + idp(cfg) + first + ") return false;\n"@ } else { m };
        let m = if wt { m + "\tswitch (cons) {\n"@ + acc.reader + "\tdefault: return false;\n\t}\n"@ } else { m + acc.reader };
        let m = m + "\treturn true;\n}\n"@ + "template <typename Accumulator>\n"@ + "void "@ + full
            + "::write(Accumulator &to) const {\n"@;
        let m = if wt && acc.writer.len() > 0 { m + "\tswitch (_type) {\n"@ + acc.writer + "\t}\n"@ } else { m + acc.writer };
        m + "}\n"@ + "template void "@ + full + "::write<"@ + buf + ">("@ + buf + " &to) const;\n"@
            + "template void "@ + full
            + "::write<::tl::details::LengthCounter>(::tl::details::LengthCounter &to) const;\n"@
    } else {
        m
    };
    let m = if wt {
        m + full + "::"@ + full + "("@ + tit(cfg) + " type) : _type(type) {\n"@ + "\tswitch (type) {\n"@
            + acc.switch_lines + "\tdefault: Unexpected(\"Type in "@ + full + "::"@ + full + ".\");\n\t}\n}\n"@
    } else {
        m
    };
    m + acc.constructs_bodies + acc.creators_bodies
}

/// The `match` visitor of one result type.
pub open spec fn type_visitor_text(cfg: CodegenScheme, key: Seq<char>, def: TypeDefModel, acc: TypeAccModel) -> Seq<char> {
    let full = spec_full_type_name(cfg, key);
    let v = "template <typename Method, typename ...Methods>\n"@ + "decltype(auto) "@ + full
        + "::match(Method &&method, Methods &&...methods) const {\n"@;
    let v = if def.with_type {
        v + "\tswitch (_type) {\n"@ + acc.visitor + "\t}\n"@ + "\tUnexpected(\"Type in "@ + full + "::match.\");\n"@
    } else {
        v + "\treturn base::match_method(c_"@ + def.ctors[0].name
            + "(), std::forward<Method>(method), std::forward<Methods>(methods)...);\n"@
    };
    v + "}\n\n"@
}

/// Everything one result type adds to the pass.
pub open spec fn type_def_step(cfg: CodegenScheme, rw: bool, opt: bool, key: Seq<char>, def: TypeDefModel, st: GenModel) -> GenModel {
    let full = spec_full_type_name(cfg, key);
    let st1 = GenModel {
        forwards: st.forwards + "class "@ + full + ";\n"@,
        forw_typedefs: if rw {
            st.forw_typedefs + "using "@ + spec_full_type_name(cfg, def.boxed_name) + " = tl::boxed<"@ + full + ">;\n"@
        } else {
            st.forw_typedefs
        },
        ..st
    };
    let r = type_ctors_fold(cfg, rw, opt, full, def.with_type, def.ctors, (acc_empty(), st1));
    let acc = r.0;
    let st2 = r.1;
    GenModel {
        forwards: st2.forwards + "\n"@,
        types_text: st2.types_text + type_class_text(cfg, rw, opt, key, def, acc),
        methods: st2.methods + type_methods_text(cfg, rw, key, def, acc),
        visitor_methods: st2.visitor_methods + type_visitor_text(cfg, key, def, acc),
        factories: st2.factories + acc.creators_decls,
        ..st2
    }
}

/// All result types of the type table, in table order.
pub open spec fn types_fold(cfg: CodegenScheme, rw: bool, opt: bool, t: Seq<(Seq<char>, TypeDefModel)>, st: GenModel) -> GenModel
    decreases t.len(),
{
    if t.len() == 0 {
        st
    } else {
        type_def_step(cfg, rw, opt, t.last().0, t.last().1, types_fold(cfg, rw, opt, t.drop_last(), st))
    }
}

/// The type pass never writes the flag cast operators.
pub proof fn lemma_types_fold_keeps_flag_operators(cfg: CodegenScheme, rw: bool, opt: bool, t: Seq<(Seq<char>, TypeDefModel)>, st: GenModel)
    ensures
        types_fold(cfg, rw, opt, t, st).flag_operators == st.flag_operators,
    decreases t.len(),
{
    if t.len() > 0 {
        lemma_types_fold_keeps_flag_operators(cfg, rw, opt, t.drop_last(), st);
        let prev = types_fold(cfg, rw, opt, t.drop_last(), st);
        let key = t.last().0;
        let def = t.last().1;
        let full = spec_full_type_name(cfg, key);
        let st1 = GenModel {
            forwards: prev.forwards + "class "@ + full + ";\n"@,
            forw_typedefs: if rw {
                prev.forw_typedefs + "using "@ + spec_full_type_name(cfg, def.boxed_name) + " = tl::boxed<"@ + full + ">;\n"@
            } else {
                prev.forw_typedefs
            },
            ..prev
        };
        lemma_type_ctors_fold_keeps_flag_operators(cfg, rw, opt, full, def.with_type, def.ctors, (acc_empty(), st1));
    }
}

/// The constructors of one result type never write the flag cast operators.
pub proof fn lemma_type_ctors_fold_keeps_flag_operators(cfg: CodegenScheme, rw: bool, opt: bool, full: Seq<char>, with_type: bool, cs: Seq<CtorModel>, s: (TypeAccModel, GenModel))
    ensures
        type_ctors_fold(cfg, rw, opt, full, with_type, cs, s).1.flag_operators == s.1.flag_operators,
    decreases cs.len(),
{
    if cs.len() > 0 {
        lemma_type_ctors_fold_keeps_flag_operators(cfg, rw, opt, full, with_type, cs.drop_last(), s);
    }
}

/// The inputs the type pass handles: a single-constructor type has its
/// constructor, and a nullable type is neither read-write nor without both
/// a type switch and data.
pub open spec fn type_def_ok(rw: bool, def: TypeDefModel) -> bool {
    &&& (!def.with_type ==> def.ctors.len() > 0)
    &&& (def.nullable ==> !rw && (def.with_type || any_stored(def.ctors)))
}

pub open spec fn types_ok(rw: bool, t: Seq<(Seq<char>, TypeDefModel)>) -> bool {
    forall|i: int| 0 <= i < t.len() ==> type_def_ok(rw, #[trigger] t[i].1)
}

fn single_data_exec(config: &CodegenScheme, def: &TypeDef) -> (r: String)
    ensures
        r@ == single_data_lines(*config, def@.ctors),
{
    let ghost cs = def@.ctors;
    let mut t = String::new();
    let mut i: usize = 0;
    while i < def.ctors.len()
        invariant
            i <= def.ctors@.len(),
            cs == def@.ctors,
            cs.len() == def.ctors@.len(),
            t@ == single_data_lines(*config, cs.take(i as int)),
        decreases def.ctors.len() - i,
    {
        assert(cs.take(i + 1).drop_last() =~= cs.take(i as int));
        assert(cs.take(i + 1).last() == def.ctors@[i as int]@);
        let df = full_data(config, def.ctors[i].name.as_str());
        t.append("\tusing SingleDataType = ");
        t.append(df.as_str());
        t.append(";\n");
        i += 1;
    }
    assert(cs.take(cs.len() as int) =~= cs);
    t
}

fn type_class_exec(config: &CodegenScheme, rw: bool, opt: bool, key: &str, def: &TypeDef, acc: &TypeAcc) -> (r: String)
    requires
        !def@.with_type ==> def@.ctors.len() > 0,
    ensures
        r@ == type_class_text(*config, rw, opt, key@, def@, acc@),
{
    let full = full_type(config, key);
    let wd = acc.with_data;
    let wt = def.with_type;
    let prime = config.types.prime.as_str();
    let tid = config.types.type_id.as_str();
    let mut t = String::from_str("\nclass ");
    t.append(full.as_str());
    if wd {
        t.append(" : private tl::details::type_owner");
    }
    t.append(" {\npublic:\n");
    t.append("\t");
    t.append(full.as_str());
    t.append("();\n");
    if def.nullable {
        t.append("\t");
        t.append(full.as_str());
        t.append("(std::nullptr_t);\n");
    }
    t.append("\n");
    if def.nullable {
        t.append("\texplicit operator bool() const;\n");
    }
    t.append(acc.getters.as_str());
    t.append("\n");
    t.append("\ttemplate <typename Method, typename ...Methods>\n");
    t.append("\tdecltype(auto) match(Method &&method, Methods &&...methods) const;\n");
    t.append("\t");
    t.append(tid);
    t.append(" type() const;\n");
    if rw {
        t.append("\n");
        t.append("\t[[nodiscard]] bool read(const ");
        t.append(prime);
        t.append(" *&from, const ");
        t.append(prime);
        t.append(" *end, ");
        t.append(tid);
        t.append(" cons");
        if !wt {
            let idp = config.id_prefix();
            let last = def.ctors.len() - 1;
            assert(def@.ctors.last() == def.ctors@[last as int]@);
            t.append(" = ");
            t.append(idp.as_str());
            t.append(def.ctors[last].name.as_str());
        }
        t.append(");\n");
        t.append("\ttemplate <typename Accumulator>\n");
        t.append("\tvoid write(Accumulator &to) const;\n");
    }
    t.append("\n\tusing ResponseType = void;\n");
    if opt {
        if wd && !wt {
            let sd = single_data_exec(config, def);
            t.append(sd.as_str());
        } else {
            t.append("\tusing SingleDataType = NotSingleDataTypePlaceholder;\n");
        }
    }
    t.append("\nprivate:\n");
    if wt {
        t.append("\texplicit ");
        t.append(full.as_str());
        t.append("(");
        t.append(tid);
        t.append(" type);\n");
    }
    if wd {
        t.append(acc.constructs_text.as_str());
    }
    if acc.friend_decl.unicode_len() > 0 {
        t.append("\n");
        t.append(acc.friend_decl.as_str());
    }
    if wt {
        t.append("\n\t");
        t.append(tid);
        t.append(" _type = 0;\n");
    }
    t.append("};\n");
    if rw {
        let res_full = full_type(config, def.boxed_name.as_str());
        t.append("using ");
        t.append(res_full.as_str());
        t.append(" = tl::boxed<");
        t.append(full.as_str());
        t.append(">;\n");
    }
    t
}

fn type_methods_exec(config: &CodegenScheme, rw: bool, key: &str, def: &TypeDef, acc: &TypeAcc) -> (r: String)
    requires
        !def@.with_type ==> def@.ctors.len() > 0,
    ensures
        r@ == type_methods_text(*config, rw, key@, def@, acc@),
{
    let full = full_type(config, key);
    let wd = acc.with_data;
    let wt = def.with_type;
    let nul = def.nullable;
    let prime = config.types.prime.as_str();
    let buf = config.types.buffer.as_str();
    let tid = config.types.type_id.as_str();
    let idp = config.id_prefix();
    let mut m = if wd && !wt {
        let mut s = String::from_str("\n");
        s.append(full.as_str());
        s.append("::");
        s.append(full.as_str());
        s.append("() : type_owner(");
        s.append(acc.new_fast.as_str());
        s.append(") {\n}\n");
        s
    } else {
        let mut s = String::from_str("\n");
        s.append(full.as_str());
        s.append("::");
        s.append(full.as_str());
        s.append("() = default;\n");
        s
    };
    if nul {
        m.append(full.as_str());
        m.append("::");
        m.append(full.as_str());
        m.append("(std::nullptr_t) {\n}\n");
        m.append(full.as_str());
        m.append("::operator bool() const {\n\t");
        if wd {
            m.append("\treturn hasData();\n");
        } else {
            m.append("\treturn _type != 0;\n");
        }
        m.append("}\n");
    }
    let type_body = if wt {
        if nul {
            String::from_str("\treturn _type;\n")
        } else {
            String::from_str("\tExpects(_type != 0);\n\n\treturn _type;\n")
        }
    } else {
        assert(def@.ctors[0] == def.ctors@[0]@);
        if nul {
            let mut s = String::from_str("\treturn hasData() ? ");
            s.append(idp.as_str());
            s.append(def.ctors[0].name.as_str());
            s.append(" : ");
            s.append(tid);
            s.append("(0);\n");
            s
        } else {
            let mut s = String::from_str("\treturn ");
            s.append(idp.as_str());
            s.append(def.ctors[0].name.as_str());
            s.append(";\n");
            s
        }
    };
    m.append(tid);
    m.append(" ");
    m.append(full.as_str());
    m.append("::type() const {\n");
    m.append(type_body.as_str());
    m.append("}\n");
    if rw {
        m.append("bool ");
        m.append(full.as_str());
        m.append("::read(const ");
        m.append(prime);
        m.append(" *&from, const ");
        m.append(prime);
        m.append(" *end, ");
        m.append(tid);
        m.append(" cons) {\n");
        if wd && !wt {
            assert(def@.ctors[0] == def.ctors@[0]@);
            m.append("\tif (cons != ");
            m.append(idp.as_str());
            m.append(def.ctors[0].name.as_str());
            m.append(") return false;\n");
        }
        if wt {
            m.append("\tswitch (cons) {\n");
            m.append(acc.reader.as_str());
            m.append("\tdefault: return false;\n\t}\n");
        } else {
            m.append(acc.reader.as_str());
        }
        m.append("\treturn true;\n}\n");
        m.append("template <typename Accumulator>\n");
        m.append("void ");
        m.append(full.as_str());
        m.append("::write(Accumulator &to) const {\n");
        if wt && acc.writer.unicode_len() > 0 {
            m.append("\tswitch (_type) {\n");
            m.append(acc.writer.as_str());
            m.append("\t}\n");
        } else {
            m.append(acc.writer.as_str());
        }
        m.append("}\n");
        m.append("template void ");
        m.append(full.as_str());
        m.append("::write<");
        m.append(buf);
        m.append(">(");
        m.append(buf);
        m.append(" &to) const;\n");
        m.append("template void ");
        m.append(full.as_str());
        m.append("::write<::tl::details::LengthCounter>(::tl::details::LengthCounter &to) const;\n");
    }
    if wt {
        m.append(full.as_str());
        m.append("::");
        m.append(full.as_str());
        m.append("(");
        m.append(tid);
        m.append(" type) : _type(type) {\n");
        m.append("\tswitch (type) {\n");
        m.append(acc.switch_lines.as_str());
        m.append("\tdefault: Unexpected(\"Type in ");
        m.append(full.as_str());
        m.append("::");
        m.append(full.as_str());
        m.append(".\");\n\t}\n}\n");
    }
    m.append(acc.constructs_bodies.as_str());
    m.append(acc.creators_bodies.as_str());
    m
}

fn type_visitor_exec(config: &CodegenScheme, key: &str, def: &TypeDef, acc: &TypeAcc) -> (r: String)
    requires
        !def@.with_type ==> def@.ctors.len() > 0,
    ensures
        r@ == type_visitor_text(*config, key@, def@, acc@),
{
    let full = full_type(config, key);
    let mut v = String::from_str("template <typename Method, typename ...Methods>\n");
    v.append("decltype(auto) ");
    v.append(full.as_str());
    v.append("::match(Method &&method, Methods &&...methods) const {\n");
    if def.with_type {
        v.append("\tswitch (_type) {\n");
        v.append(acc.visitor.as_str());
        v.append("\t}\n");
        v.append("\tUnexpected(\"Type in ");
        v.append(full.as_str());
        v.append("::match.\");\n");
    } else {
        assert(def@.ctors[0] == def.ctors@[0]@);
        v.append("\treturn base::match_method(c_");
        v.append(def.ctors[0].name.as_str());
        v.append("(), std::forward<Method>(method), std::forward<Methods>(methods)...);\n");
    }
    v.append("}\n\n");
    v
}

fn type_def_exec(config: &CodegenScheme, rw: bool, opt: bool, key: &str, def: &TypeDef, g: &mut Generated)
    requires
        type_def_ok(rw, def@),
    ensures
        final(g)@ == type_def_step(*config, rw, opt, key@, def@, old(g)@),
{
    let full = full_type(config, key);
    g.forwards.append("class ");
    g.forwards.append(full.as_str());
    g.forwards.append(";\n");
    if rw {
        let res_full = full_type(config, def.boxed_name.as_str());
        g.forw_typedefs.append("using ");
        g.forw_typedefs.append(res_full.as_str());
        g.forw_typedefs.append(" = tl::boxed<");
        g.forw_typedefs.append(full.as_str());
        g.forw_typedefs.append(">;\n");
    }
    let ghost st1 = g@;
    assert(st1 =~= GenModel {
        forwards: old(g)@.forwards + "class "@ + full@ + ";\n"@,
        forw_typedefs: if rw {
            old(g)@.forw_typedefs + "using "@ + spec_full_type_name(*config, def@.boxed_name) + " = tl::boxed<"@ + full@ + ">;\n"@
        } else {
            old(g)@.forw_typedefs
        },
        ..old(g)@
    });
    let mut acc = acc_new();
    let ghost cs = def@.ctors;
    let mut j: usize = 0;
    while j < def.ctors.len()
        invariant
            j <= def.ctors@.len(),
            cs == def@.ctors,
            cs.len() == def.ctors@.len(),
            (acc@, g@) == type_ctors_fold(*config, rw, opt, full@, def@.with_type, cs.take(j as int), (acc_empty(), st1)),
        decreases def.ctors.len() - j,
    {
        assert(cs.take(j + 1).drop_last() =~= cs.take(j as int));
        assert(cs.take(j + 1).last() == def.ctors@[j as int]@);
        type_ctor_exec(config, rw, opt, full.as_str(), def.with_type, &def.ctors[j], &mut acc, g);
        j += 1;
    }
    assert(cs.take(cs.len() as int) =~= cs);
    let t = type_class_exec(config, rw, opt, key, def, &acc);
    let m = type_methods_exec(config, rw, key, def, &acc);
    let v = type_visitor_exec(config, key, def, &acc);
    g.forwards.append("\n");
    g.types_text.append(t.as_str());
    g.methods.append(m.as_str());
    g.visitor_methods.append(v.as_str());
    g.factories.append(acc.creators_decls.as_str());
    assert(g@ =~= type_def_step(*config, rw, opt, key@, def@, old(g)@));
}

pub fn types_pass(scheme: &Scheme, config: &CodegenScheme, rw: bool, opt: bool, g: &mut Generated)
    requires
        types_ok(rw, table_view(scheme.types)),
    ensures
        final(g)@ == types_fold(*config, rw, opt, table_view(scheme.types), old(g)@),
{
    let ghost t = table_view(scheme.types);
    let ghost st0 = g@;
    let n = table_len(&scheme.types);
    let mut i: usize = 0;
    while i < n
        invariant
            i <= n,
            n == t.len(),
            t == table_view(scheme.types),
            types_ok(rw, t),
            g@ == types_fold(*config, rw, opt, t.take(i as int), st0),
        decreases n - i,
    {
        assert(t.take(i + 1).drop_last() =~= t.take(i as int));
        let (key, def) = table_get_index(&scheme.types, i).unwrap();
        assert(t.take(i + 1).last() == (key@, def@));
        assert(t[i as int].1 == def@);
        type_def_exec(config, rw, opt, key.as_str(), def, g);
        i += 1;
    }
    assert(t.take(t.len() as int) =~= t);
}

fn any_stored_exec(config: &CodegenScheme, def: &TypeDef) -> (r: bool)
    ensures
        r == any_stored(def@.ctors),
{
    let ghost cs = def@.ctors;
    let mut found = false;
    let mut j: usize = 0;
    while j < def.ctors.len()
        invariant
            j <= def.ctors@.len(),
            cs == def@.ctors,
            cs.len() == def.ctors@.len(),
            found == any_stored(cs.take(j as int)),
        decreases def.ctors.len() - j,
    {
        assert(cs.take(j + 1).drop_last() =~= cs.take(j as int));
        assert(cs.take(j + 1).last() == def.ctors@[j as int]@);
        let (a, _) = args_exec(config, &def.ctors[j], false);
        if a.len() > 0 {
            found = true;
        }
        j += 1;
    }
    assert(cs.take(cs.len() as int) =~= cs);
    found
}

/// Whether every type of the table passes `type_def_ok`.
pub fn types_ok_exec(scheme: &Scheme, config: &CodegenScheme, rw: bool) -> (r: bool)
    ensures
        r == types_ok(rw, table_view(scheme.types)),
{
    let ghost t = table_view(scheme.types);
    let n = table_len(&scheme.types);
    let mut i: usize = 0;
    while i < n
        invariant
            i <= n,
            n == t.len(),
            t == table_view(scheme.types),
            forall|k: int| 0 <= k < i ==> type_def_ok(rw, #[trigger] t[k].1),
        decreases n - i,
    {
        let (_, def) = table_get_index(&scheme.types, i).unwrap();
        assert(t[i as int].1 == def@);
        let ok = (def.with_type || def.ctors.len() > 0)
            && (!def.nullable || (!rw && (def.with_type || any_stored_exec(config, def))));
        if !ok {
            return false;
        }
        i += 1;
    }
    true
}

} // verus!
