//! `-conversion-{from,to}.h/.cpp`: `tl_from` / `tl_to` functions between
//! the generated types and an external API's object types, and
//! `tl_to_generator` for every RPC method. Written only when a conversion
//! output is configured.

use vstd::prelude::*;
use crate::config::{CodegenScheme, Conversion};
use crate::emit::{full_type, quoted_names, quoted_names_exec};
use crate::ir::{Constructor, CtorModel, ParamModel, Scheme, SchemeModel, TypeDef, TypeDefModel, table_entries, table_get_index, table_get_index_of, table_len, table_view};
use crate::parse::{normalized_name, spec_normalized_name};
use crate::parser::scheme_view;
use crate::resolve::spec_full_type_name;
use crate::text::{contains_str, find_char, find_char_exec, join, join_exec, str_eq, views};

verus! {

// ---------------------------------------------------------------------------
// Names
// ---------------------------------------------------------------------------

/// `::<namespace>::<name>` in the external API's namespace.
pub open spec fn conv_name(cfg: CodegenScheme, name: Seq<char>) -> Seq<char> {
    let s = "::"@;
    let s = match cfg.conversion {
        Some(cv) => s + cv.namespace@,
        None => s,
    };
    s + "::"@ + name
}

fn conversion_name(config: &CodegenScheme, name: &str) -> (r: String)
    ensures
        r@ == conv_name(*config, name@),
{
    let mut s = String::from_str("::");
    match &config.conversion {
        Some(cv) => s.append(cv.namespace.as_str()),
        None => {},
    }
    s.append("::");
    s.append(name);
    s
}

/// The uppercase mapping of a character (one or more characters).
pub uninterp spec fn char_uppercase(c: char) -> Seq<char>;

/// `char::to_uppercase`: the full Unicode uppercase mapping of `c`,
/// collected into a string.
#[verifier::external_body]
fn char_to_uppercase(c: char) -> (r: String)
    ensures
        r@ == char_uppercase(c),
{
    c.to_uppercase().collect()
}

/// First character uppercased, the rest unchanged.
pub open spec fn spec_capitalize_first(s: Seq<char>) -> Seq<char> {
    if s.len() == 0 { s } else { char_uppercase(s[0]) + s.skip(1) }
}

/// `s` with its first character replaced by `upper`, the uppercase mapping
/// of that character (an empty `s` stays empty).
pub fn with_first_replaced(upper: &str, s: &str) -> (r: String)
    ensures
        r@ == (if s@.len() == 0 { s@ } else { upper@ + s@.skip(1) }),
{
    let v = crate::text::chars_of(s);
    if v.len() == 0 {
        let r = String::new();
        assert(r@ =~= s@);
        r
    } else {
        let mut r = String::from_str(upper);
        let rest = crate::text::slice_copy(&v, 1, v.len());
        let t = crate::text::string_of(&rest);
        r.append(t.as_str());
        assert(t@ =~= s@.skip(1));
        r
    }
}

fn capitalize_first(s: &str) -> (r: String)
    ensures
        r@ == spec_capitalize_first(s@),
{
    let v = crate::text::chars_of(s);
    if v.len() == 0 {
        with_first_replaced("", s)
    } else {
        let u = char_to_uppercase(v[0]);
        with_first_replaced(u.as_str(), s)
    }
}

/// `name` is a builtin type.
pub open spec fn is_builtin(cfg: CodegenScheme, name: Seq<char>) -> bool {
    views(cfg.builtin@).contains(name)
}

/// `name` is one of the table's keys with more than one constructor.
pub open spec fn is_multi(types: Seq<(Seq<char>, TypeDefModel)>, name: Seq<char>) -> bool {
    exists|i: int| 0 <= i < types.len() && types[i].0 == name && (#[trigger] types[i]).1.ctors.len() > 1
}

fn is_multi_exec(scheme: &Scheme, name: &str) -> (r: bool)
    ensures
        r == is_multi(table_view(scheme.types), name@),
{
    let ghost t = table_view(scheme.types);
    match table_get_index_of(&scheme.types, name) {
        Some(i) => {
            let (_, def) = table_get_index(&scheme.types, i).unwrap();
            assert(t[i as int] == (name@, def@));
            if def.ctors.len() > 1 {
                true
            } else {
                assert forall|j: int| 0 <= j < t.len() && t[j].0 == name@ implies (#[trigger] t[j]).1.ctors.len() <= 1 by {
                    assert(t[j].0 == table_entries(scheme.types)[j].0@);
                }
                false
            }
        },
        None => {
            assert forall|j: int| 0 <= j < t.len() implies (#[trigger] t[j]).0 != name@ by {
                assert(t[j].0 == table_entries(scheme.types)[j].0@);
            }
            false
        },
    }
}

// ---------------------------------------------------------------------------
// Arguments
// ---------------------------------------------------------------------------

/// One `tl_from_*` argument in `tl_from` bodies.
pub open spec fn from_arg_text(cfg: CodegenScheme, c: CtorModel, pname: Seq<char>, bare: Seq<char>) -> Seq<char> {
    if bare == "string"@ {
        "tl_from_string(specific->"@ + pname + "_)"@
    } else if is_builtin(cfg, bare) || bare == "bool"@ {
        "tl_from_simple(specific->"@ + pname + "_)"@
    } else if find_char(bare, '<') is Some {
        if c.nullable_vectors.contains(pname) {
            "tl_from_vector_optional<"@ + spec_full_type_name(cfg, bare) + ">(specific->"@ + pname + "_)"@
        } else {
            "tl_from_vector<"@ + spec_full_type_name(cfg, bare) + ">(specific->"@ + pname + "_)"@
        }
    } else if c.nullable_params.contains(pname) {
        "specific->"@ + pname + "_.get() ? std::make_optional(tl_from<"@ + spec_full_type_name(cfg, bare)
            + ">(specific->"@ + pname + "_.get())) : std::nullopt"@
    } else {
        "tl_from<"@ + spec_full_type_name(cfg, bare) + ">(specific->"@ + pname + "_.get())"@
    }
}

/// `tl_from` argument for a parameter; the conversion has no flags
/// support, so `pname` must not be conditional.
pub fn from_arg(c: &Constructor, pname: &str, bare: &str, config: &CodegenScheme) -> (r: String)
    requires
        !crate::emit::has_cond(c@.conditions, pname@),
    ensures
        r@ == from_arg_text(*config, c@, pname@, bare@),
{
    if str_eq(bare, "string") {
        let mut s = String::from_str("tl_from_string(specific->");
        s.append(pname);
        s.append("_)");
        s
    } else if contains_str(&config.builtin, bare) || str_eq(bare, "bool") {
        let mut s = String::from_str("tl_from_simple(specific->");
        s.append(pname);
        s.append("_)");
        s
    } else if find_char_exec(&crate::text::chars_of(bare), '<').is_some() {
        let pfb = full_type(config, bare);
        if contains_str(&c.nullable_vectors, pname) {
            let mut s = String::from_str("tl_from_vector_optional<");
            s.append(pfb.as_str());
            s.append(">(specific->");
            s.append(pname);
            s.append("_)");
            s
        } else {
            let mut s = String::from_str("tl_from_vector<");
            s.append(pfb.as_str());
            s.append(">(specific->");
            s.append(pname);
            s.append("_)");
            s
        }
    } else {
        let pfb = full_type(config, bare);
        if contains_str(&c.nullable_params, pname) {
            let mut s = String::from_str("specific->");
            s.append(pname);
            s.append("_.get() ? std::make_optional(tl_from<");
            s.append(pfb.as_str());
            s.append(">(specific->");
            s.append(pname);
            s.append("_.get())) : std::nullopt");
            s
        } else {
            let mut s = String::from_str("tl_from<");
            s.append(pfb.as_str());
            s.append(">(specific->");
            s.append(pname);
            s.append("_.get())");
            s
        }
    }
}

/// One `tl_to` argument in `tl_to` bodies.
pub open spec fn to_arg_text(cfg: CodegenScheme, types: Seq<(Seq<char>, TypeDefModel)>, c: CtorModel, pname: Seq<char>, bare: Seq<char>) -> Seq<char> {
    if c.bots_only_params.contains(pname) {
        "{}"@
    } else if is_builtin(cfg, bare) || bare == "bool"@ {
        "tl_to_simple(value.v"@ + pname + "())"@
    } else if find_char(bare, '<') is Some {
        if c.nullable_vectors.contains(pname) {
            "tl_to_vector_optional(value.v"@ + pname + "())"@
        } else {
            "tl_to_vector(value.v"@ + pname + "())"@
        }
    } else {
        let conv = if c.nullable_params.contains(pname) {
            "value.v"@ + pname + "() ? tl_to(*value.v"@ + pname + "()) : nullptr"@
        } else {
            "tl_to(value.v"@ + pname + "())"@
        };
        let target = if is_multi(types, bare) {
            conv_name(cfg, spec_capitalize_first(bare))
        } else {
            conv_name(cfg, bare)
        };
        "::td::td_api::object_ptr<"@ + target + ">("@ + conv + ")"@
    }
}

/// A parameter handed to `tl_to` as an object is wrapped in an
/// `object_ptr` of its type's conversion class: for a type with several
/// constructors that is the capitalized (abstract) class, for any other
/// type the class of the bare name itself.
pub proof fn law_to_arg_object_target(cfg: CodegenScheme, types: Seq<(Seq<char>, TypeDefModel)>, c: CtorModel, pname: Seq<char>, bare: Seq<char>)
    requires
        !c.bots_only_params.contains(pname),
        !is_builtin(cfg, bare),
        bare != "bool"@,
        find_char(bare, '<') is None,
    ensures
        ({
            let conv = if c.nullable_params.contains(pname) {
                "value.v"@ + pname + "() ? tl_to(*value.v"@ + pname + "()) : nullptr"@
            } else {
                "tl_to(value.v"@ + pname + "())"@
            };
            &&& (exists|i: int| 0 <= i < types.len() && types[i].0 == bare && types[i].1.ctors.len() > 1) ==>
                to_arg_text(cfg, types, c, pname, bare)
                    == "::td::td_api::object_ptr<"@ + conv_name(cfg, spec_capitalize_first(bare)) + ">("@ + conv + ")"@
            &&& !(exists|i: int| 0 <= i < types.len() && types[i].0 == bare && types[i].1.ctors.len() > 1) ==>
                to_arg_text(cfg, types, c, pname, bare)
                    == "::td::td_api::object_ptr<"@ + conv_name(cfg, bare) + ">("@ + conv + ")"@
        }),
{
}

/// `tl_to` argument for a parameter (always present); `pname` must not be
/// conditional.
pub fn to_arg(c: &Constructor, pname: &str, bare: &str, config: &CodegenScheme, scheme: &Scheme) -> (r: Option<String>)
    requires
        !crate::emit::has_cond(c@.conditions, pname@),
    ensures
        r matches Some(s) && s@ == to_arg_text(*config, table_view(scheme.types), c@, pname@, bare@),
{
    if contains_str(&c.bots_only_params, pname) {
        return Some(String::from_str("{}"));
    }
    if contains_str(&config.builtin, bare) || str_eq(bare, "bool") {
        let mut s = String::from_str("tl_to_simple(value.v");
        s.append(pname);
        s.append("())");
        return Some(s);
    }
    if find_char_exec(&crate::text::chars_of(bare), '<').is_some() {
        if contains_str(&c.nullable_vectors, pname) {
            let mut s = String::from_str("tl_to_vector_optional(value.v");
            s.append(pname);
            s.append("())");
            return Some(s);
        }
        let mut s = String::from_str("tl_to_vector(value.v");
        s.append(pname);
        s.append("())");
        return Some(s);
    }
    let conv = if contains_str(&c.nullable_params, pname) {
        let mut s = String::from_str("value.v");
        s.append(pname);
        s.append("() ? tl_to(*value.v");
        s.append(pname);
        s.append("()) : nullptr");
        s
    } else {
        let mut s = String::from_str("tl_to(value.v");
        s.append(pname);
        s.append("())");
        s
    };
    let target = if is_multi_exec(scheme, bare) {
        let cap = capitalize_first(bare);
        conversion_name(config, cap.as_str())
    } else {
        conversion_name(config, bare)
    };
    let mut s = String::from_str("::td::td_api::object_ptr<");
    s.append(target.as_str());
    s.append(">(");
    s.append(conv.as_str());
    s.append(")");
    Some(s)
}

/// The constructor has no parameters.
pub fn params_empty(c: &Constructor) -> (r: bool)
    ensures
        r == (c@.params.len() == 0),
{
    c.params.len() == 0
}

/// No parameter of the constructor is conditional.
pub open spec fn no_cond_params(c: CtorModel) -> bool {
    forall|i: int| 0 <= i < c.params.len() ==> !crate::emit::has_cond(c.conditions, (#[trigger] c.params[i]).name)
}

/// `tl_from` arguments: every parameter that is not bots-only.
pub open spec fn from_args_of(cfg: CodegenScheme, c: CtorModel, ps: Seq<ParamModel>) -> Seq<Seq<char>>
    decreases ps.len(),
{
    if ps.len() == 0 {
        Seq::empty()
    } else if c.bots_only_params.contains(ps.last().name) {
        from_args_of(cfg, c, ps.drop_last())
    } else {
        from_args_of(cfg, c, ps.drop_last()).push(from_arg_text(cfg, c, ps.last().name, ps.last().tl_type))
    }
}

/// `tl_to` arguments: every parameter.
pub open spec fn to_args_of(cfg: CodegenScheme, types: Seq<(Seq<char>, TypeDefModel)>, c: CtorModel, ps: Seq<ParamModel>) -> Seq<Seq<char>> {
    ps.map_values(|p: ParamModel| to_arg_text(cfg, types, c, p.name, p.tl_type))
}

fn from_args_exec(config: &CodegenScheme, c: &Constructor) -> (r: String)
    requires
        no_cond_params(c@),
    ensures
        r@ == join(from_args_of(*config, c@, c@.params), ", "@),
{
    let ghost ps = c@.params;
    let mut a: Vec<String> = Vec::new();
    let mut i: usize = 0;
    while i < c.params.len()
        invariant
            i <= c.params@.len(),
            ps == c@.params,
            ps.len() == c.params@.len(),
            no_cond_params(c@),
            views(a@) == from_args_of(*config, c@, ps.take(i as int)),
        decreases c.params.len() - i,
    {
        assert(ps.take(i + 1).drop_last() =~= ps.take(i as int));
        assert(ps.take(i + 1).last() == c.params@[i as int]@);
        assert(ps[i as int] == c.params@[i as int]@);
        let p = &c.params[i];
        if !contains_str(&c.bots_only_params, p.name.as_str()) {
            let s = from_arg(c, p.name.as_str(), p.tl_type.as_str(), config);
            let ghost oa = a@;
            a.push(s);
            assert(views(a@) =~= views(oa).push(s@));
        }
        i += 1;
    }
    assert(ps.take(ps.len() as int) =~= ps);
    join_exec(&a, ", ")
}

fn to_args_exec(config: &CodegenScheme, scheme: &Scheme, c: &Constructor) -> (r: String)
    requires
        no_cond_params(c@),
    ensures
        r@ == join(to_args_of(*config, table_view(scheme.types), c@, c@.params), ", "@),
{
    let ghost ps = c@.params;
    let ghost t = table_view(scheme.types);
    let mut a: Vec<String> = Vec::new();
    let mut i: usize = 0;
    while i < c.params.len()
        invariant
            i <= c.params@.len(),
            ps == c@.params,
            ps.len() == c.params@.len(),
            t == table_view(scheme.types),
            no_cond_params(c@),
            views(a@) == to_args_of(*config, t, c@, ps.take(i as int)),
        decreases c.params.len() - i,
    {
        assert(ps[i as int] == c.params@[i as int]@);
        let p = &c.params[i];
        let s = to_arg(c, p.name.as_str(), p.tl_type.as_str(), config, scheme).unwrap();
        let ghost oa = a@;
        a.push(s);
        assert(views(a@) =~= views(oa).push(s@));
        assert(to_args_of(*config, t, c@, ps.take(i + 1)) =~= to_args_of(*config, t, c@, ps.take(i as int)).push(s@));
        i += 1;
    }
    assert(ps.take(ps.len() as int) =~= ps);
    join_exec(&a, ", ")
}

// ---------------------------------------------------------------------------
// The four texts
// ---------------------------------------------------------------------------

#[verifier::ext_equal]
pub struct ConvModel {
    pub header_from: Seq<char>,
    pub source_from: Seq<char>,
    pub header_to: Seq<char>,
    pub source_to: Seq<char>,
}

/// Accumulated conversion text for all four outputs.
struct Conv {
    header_from: String,
    source_from: String,
    header_to: String,
    source_to: String,
}

impl View for Conv {
    type V = ConvModel;

    closed spec fn view(&self) -> ConvModel {
        ConvModel {
            header_from: self.header_from@,
            source_from: self.source_from@,
            header_to: self.header_to@,
            source_to: self.source_to@,
        }
    }
}

pub open spec fn conv_empty() -> ConvModel {
    ConvModel { header_from: Seq::empty(), source_from: Seq::empty(), header_to: Seq::empty(), source_to: Seq::empty() }
}

/// A type the conversion skips: a builtin or an additional builtin.
pub open spec fn conv_skipped(cfg: CodegenScheme, key: Seq<char>) -> bool {
    is_builtin(cfg, key) || match cfg.conversion {
        Some(cv) => views(cv.builtin_additional@).contains(key),
        None => false,
    }
}

/// The `tl_from` declaration shared by union and single types.
pub open spec fn from_decl(full: Seq<char>) -> Seq<char> {
    "template <>\n"@ + full + " tl_from<"@ + full + ">(ExternalResponse response);\n"@
}

fn from_decl_exec(full: &str) -> (r: String)
    ensures
        r@ == from_decl(full@),
{
    let mut s = String::from_str("template <>\n");
    s.append(full);
    s.append(" tl_from<");
    s.append(full);
    s.append(">(ExternalResponse response);\n");
    s
}

/// The opening of a `tl_from` definition.
pub open spec fn from_open(full: Seq<char>) -> Seq<char> {
    "\ntemplate <>\n"@ + full + " tl_from<"@ + full + ">(ExternalResponse response) {\n"@
}

/// One `case` of a union `tl_from`.
pub open spec fn union_case(cfg: CodegenScheme, c: CtorModel) -> Seq<char> {
    let cname = conv_name(cfg, c.name);
    let s = "\tcase "@ + cname + "::ID: "@;
    if c.params.len() == 0 {
        s + "return "@ + cfg.prefixes.construct@ + c.name + "();\n"@
    } else {
        s + "{\n\t\tconst auto specific = static_cast<const "@ + cname + "*>(response);\n"@ + "\t\treturn "@
            + cfg.prefixes.construct@ + c.name + "("@ + join(from_args_of(cfg, c, c.params), ", "@) + ");\n\t} break;\n"@
    }
}

pub open spec fn union_cases(cfg: CodegenScheme, cs: Seq<CtorModel>) -> Seq<char>
    decreases cs.len(),
{
    if cs.len() == 0 { Seq::empty() } else { union_cases(cfg, cs.drop_last()) + union_case(cfg, cs.last()) }
}

/// The `tl_from` definition of a union type.
pub open spec fn union_from(cfg: CodegenScheme, full: Seq<char>, def: TypeDefModel) -> Seq<char> {
    let s = from_open(full);
    let s = if def.nullable {
        s + "\tif (!response) {\n\t\treturn nullptr;\n\t}\n\n"@
    } else {
        s + "\tExpects(response != nullptr);\n\n"@
    };
    s + "\tswitch (response->get_id()) {\n"@ + union_cases(cfg, def.ctors) + "\tdefault: Unexpected(\"Type in "@ + full
        + " tl_from.\");\n\t}\n}\n"@
}

/// One `case` of a type's `tl_to`.
pub open spec fn to_case(cfg: CodegenScheme, c: CtorModel) -> Seq<char> {
    if c.params.len() == c.trivial_conditions.len() {
        "\tcase "@ + cfg.spec_id_prefix() + c.name + ": return new "@ + conv_name(cfg, c.name) + "();\n"@
    } else {
        "\tcase "@ + cfg.spec_id_prefix() + c.name + ": return tl_to(value.c_"@ + c.name + "());\n"@
    }
}

pub open spec fn to_cases(cfg: CodegenScheme, cs: Seq<CtorModel>) -> Seq<char>
    decreases cs.len(),
{
    if cs.len() == 0 { Seq::empty() } else { to_cases(cfg, cs.drop_last()) + to_case(cfg, cs.last()) }
}

/// The `tl_to` definition of a type.
pub open spec fn type_to(cfg: CodegenScheme, key: Seq<char>, def: TypeDefModel) -> Seq<char> {
    let full = spec_full_type_name(cfg, key);
    let ctype = if def.ctors.len() > 1 { key } else { def.ctors[0].name };
    let s = "\n"@ + conv_name(cfg, ctype) + " *tl_to(const "@ + full + " &value) {\n"@;
    let s = if def.with_type {
        let s = s + "\tswitch (value.type()) {\n"@;
        let s = if def.nullable { s + "\tcase "@ + cfg.types.type_id@ + "(0): return nullptr;\n"@ } else { s };
        s + to_cases(cfg, def.ctors) + "\tdefault: Unexpected(\"Type in tl_to("@ + full + ").\");\n\t}\n"@
    } else {
        let s = if def.nullable { s + "\tif (!value) {\n\t\treturn nullptr;\n\t}\n"@ } else { s };
        s + "\treturn tl_to(value.c_"@ + def.ctors[0].name + "());\n"@
    };
    s + "}\n"@
}

/// The `tl_from` definition of a single-constructor type.
pub open spec fn single_from(cfg: CodegenScheme, full: Seq<char>, nullable: bool, c: CtorModel) -> Seq<char> {
    let cname = conv_name(cfg, c.name);
    let s = from_open(full);
    let s = if nullable {
        s + "\tif (!response) {\n\t\treturn nullptr;\n\t}\n\n"@
    } else {
        s + "\tExpects(response != nullptr);\n"@ + "\tExpects(response->get_id() == "@ + cname + "::ID);\n\n"@
    };
    let s = if c.params.len() > 0 {
        s + "\tconst auto specific = static_cast<const "@ + cname + "*>(response);\n"@
    } else {
        s
    };
    s + "\treturn "@ + cfg.prefixes.construct@ + spec_normalized_name(c.name) + "("@
        + join(from_args_of(cfg, c, c.params), ", "@) + ");\n}\n"@
}

/// What one constructor of a converted type adds.
pub open spec fn ctor_conv_step(cfg: CodegenScheme, types: Seq<(Seq<char>, TypeDefModel)>, full: Seq<char>, single: bool, nullable: bool, c: CtorModel, st: ConvModel) -> ConvModel {
    let df = cfg.prefixes.data@ + spec_normalized_name(c.name);
    let cname = conv_name(cfg, c.name);
    let st = if single {
        ConvModel {
            header_from: st.header_from + from_decl(full),
            source_from: st.source_from + single_from(cfg, full, nullable, c),
            ..st
        }
    } else {
        st
    };
    ConvModel {
        header_to: st.header_to + cname + " *tl_to(const "@ + df + " &value);\n"@,
        source_to: st.source_to + "\n"@ + cname + " *tl_to(const "@ + df + " &value) {\n"@ + "\treturn new "@ + cname
            + "("@ + join(to_args_of(cfg, types, c, c.params), ", "@) + ");\n}\n"@,
        ..st
    }
}

pub open spec fn ctor_conv_fold(cfg: CodegenScheme, types: Seq<(Seq<char>, TypeDefModel)>, full: Seq<char>, single: bool, nullable: bool, cs: Seq<CtorModel>, st: ConvModel) -> ConvModel
    decreases cs.len(),
{
    if cs.len() == 0 {
        st
    } else {
        ctor_conv_step(cfg, types, full, single, nullable, cs.last(), ctor_conv_fold(cfg, types, full, single, nullable, cs.drop_last(), st))
    }
}

/// What one type adds to the four texts.
pub open spec fn conv_type_step(cfg: CodegenScheme, types: Seq<(Seq<char>, TypeDefModel)>, key: Seq<char>, def: TypeDefModel, st: ConvModel) -> ConvModel {
    if conv_skipped(cfg, key) {
        st
    } else {
        let full = spec_full_type_name(cfg, key);
        let st = if def.ctors.len() > 1 {
            ConvModel {
                header_from: st.header_from + from_decl(full),
                source_from: st.source_from + union_from(cfg, full, def),
                ..st
            }
        } else {
            st
        };
        let st = ConvModel {
            header_to: st.header_to + conv_name(cfg, if def.ctors.len() > 1 { key } else { def.ctors[0].name })
                + " *tl_to(const "@ + full + " &value);\n"@,
            source_to: st.source_to + type_to(cfg, key, def),
            ..st
        };
        ctor_conv_fold(cfg, types, full, def.ctors.len() == 1, def.nullable, def.ctors, st)
    }
}

pub open spec fn conv_types_fold(cfg: CodegenScheme, types: Seq<(Seq<char>, TypeDefModel)>, t: Seq<(Seq<char>, TypeDefModel)>, st: ConvModel) -> ConvModel
    decreases t.len(),
{
    if t.len() == 0 {
        st
    } else {
        conv_type_step(cfg, types, t.last().0, t.last().1, conv_types_fold(cfg, types, t.drop_last(), st))
    }
}

/// `tl_to_generator` of one RPC method.
pub open spec fn generator_text(cfg: CodegenScheme, types: Seq<(Seq<char>, TypeDefModel)>, c: CtorModel) -> Seq<char> {
    "\ntemplate <>\nExternalGenerator tl_to_generator("@ + spec_full_type_name(cfg, c.name)
        + " &&request) {\n\treturn [value = std::move(request)]() -> ExternalRequest {\n\t\treturn new "@
        + conv_name(cfg, c.name) + "("@ + join(to_args_of(cfg, types, c, c.params), ", "@) + ");\n\t};\n}\n"@
}

pub open spec fn generators_of(acc: Seq<char>, cfg: CodegenScheme, types: Seq<(Seq<char>, TypeDefModel)>, cs: Seq<CtorModel>) -> Seq<char>
    decreases cs.len(),
{
    if cs.len() == 0 { acc } else { generators_of(acc, cfg, types, cs.drop_last()) + generator_text(cfg, types, cs.last()) }
}

pub open spec fn conv_funcs_fold(acc: Seq<char>, cfg: CodegenScheme, types: Seq<(Seq<char>, TypeDefModel)>, t: Seq<(Seq<char>, TypeDefModel)>) -> Seq<char>
    decreases t.len(),
{
    if t.len() == 0 {
        acc
    } else {
        generators_of(conv_funcs_fold(acc, cfg, types, t.drop_last()), cfg, types, t.last().1.ctors)
    }
}

/// The four texts: types first (skipping builtins), then the RPC method
/// generators; all empty without a conversion output.
pub open spec fn spec_conv(sm: SchemeModel, cfg: CodegenScheme) -> ConvModel {
    if cfg.conversion is None {
        conv_empty()
    } else {
        let st = conv_types_fold(cfg, sm.types, sm.types, conv_empty());
        ConvModel { source_to: conv_funcs_fold(st.source_to, cfg, sm.types, sm.funcs), ..st }
    }
}

/// The inputs the conversion handles: no conditional parameter anywhere in
/// a converted type or method, and every converted type has a constructor.
pub open spec fn conv_ok(sm: SchemeModel, cfg: CodegenScheme) -> bool {
    cfg.conversion is Some ==> {
        &&& forall|i: int| 0 <= i < sm.types.len() && !conv_skipped(cfg, sm.types[i].0) ==> {
            &&& (#[trigger] sm.types[i]).1.ctors.len() > 0
            &&& forall|j: int| 0 <= j < sm.types[i].1.ctors.len() ==> no_cond_params(#[trigger] sm.types[i].1.ctors[j])
        }
        &&& forall|i: int, j: int| 0 <= i < sm.funcs.len() && 0 <= j < (#[trigger] sm.funcs[i]).1.ctors.len() ==> no_cond_params(#[trigger] sm.funcs[i].1.ctors[j])
    }
}

fn no_cond_params_exec(c: &Constructor) -> (r: bool)
    ensures
        r == no_cond_params(c@),
{
    let mut i: usize = 0;
    while i < c.params.len()
        invariant
            i <= c.params@.len(),
            c@.params.len() == c.params@.len(),
            forall|k: int| 0 <= k < i ==> !crate::emit::has_cond(c@.conditions, (#[trigger] c@.params[k]).name),
        decreases c.params.len() - i,
    {
        assert(c@.params[i as int] == c.params@[i as int]@);
        if crate::emit::is_cond(c, c.params[i].name.as_str()) {
            return false;
        }
        i += 1;
    }
    true
}

fn ctors_no_cond(def: &TypeDef) -> (r: bool)
    ensures
        r == forall|j: int| 0 <= j < def@.ctors.len() ==> no_cond_params(#[trigger] def@.ctors[j]),
{
    let mut j: usize = 0;
    while j < def.ctors.len()
        invariant
            j <= def.ctors@.len(),
            def@.ctors.len() == def.ctors@.len(),
            forall|q: int| 0 <= q < j ==> no_cond_params(#[trigger] def@.ctors[q]),
        decreases def.ctors.len() - j,
    {
        assert(def@.ctors[j as int] == def.ctors@[j as int]@);
        if !no_cond_params_exec(&def.ctors[j]) {
            return false;
        }
        j += 1;
    }
    true
}

fn conv_skipped_exec(config: &CodegenScheme, key: &str) -> (r: bool)
    ensures
        r == conv_skipped(*config, key@),
{
    contains_str(&config.builtin, key) || match &config.conversion {
        Some(c) => contains_str(&c.builtin_additional, key),
        None => false,
    }
}

/// Whether the conversion handles `scheme` under `config` (`conv_ok`).
pub fn conv_ok_exec(scheme: &Scheme, config: &CodegenScheme) -> (r: bool)
    ensures
        r == conv_ok(scheme_view(*scheme), *config),
{
    if config.conversion.is_none() {
        return true;
    }
    let ghost sm = scheme_view(*scheme);
    let ghost t = sm.types;
    let n = table_len(&scheme.types);
    let mut i: usize = 0;
    while i < n
        invariant
            i <= n,
            n == t.len(),
            t == table_view(scheme.types),
            sm == scheme_view(*scheme),
            config.conversion is Some,
            forall|k: int| 0 <= k < i && !conv_skipped(*config, t[k].0) ==> {
                &&& (#[trigger] t[k]).1.ctors.len() > 0
                &&& forall|j: int| 0 <= j < t[k].1.ctors.len() ==> no_cond_params(#[trigger] t[k].1.ctors[j])
            },
        decreases n - i,
    {
        let (key, def) = table_get_index(&scheme.types, i).unwrap();
        assert(t[i as int] == (key@, def@));
        if !conv_skipped_exec(config, key.as_str()) {
            let nonempty = def.ctors.len() > 0;
            if !nonempty || !ctors_no_cond(def) {
                proof {
                    if conv_ok(sm, *config) {
                        assert(sm.types[i as int].1.ctors.len() > 0);
                        if nonempty {
                            let j = choose|j: int| 0 <= j < def@.ctors.len() && !no_cond_params(#[trigger] def@.ctors[j]);
                            assert(no_cond_params(sm.types[i as int].1.ctors[j]));
                        }
                    }
                }
                return false;
            }
        }
        i += 1;
    }
    let ghost f = sm.funcs;
    let nf = table_len(&scheme.funcs);
    let mut i: usize = 0;
    while i < nf
        invariant
            i <= nf,
            nf == f.len(),
            f == table_view(scheme.funcs),
            sm == scheme_view(*scheme),
            config.conversion is Some,
            forall|k: int, j: int| 0 <= k < i && 0 <= j < (#[trigger] f[k]).1.ctors.len() ==> no_cond_params(#[trigger] f[k].1.ctors[j]),
        decreases nf - i,
    {
        let (_, def) = table_get_index(&scheme.funcs, i).unwrap();
        assert(f[i as int].1 == def@);
        if !ctors_no_cond(def) {
            proof {
                let j = choose|j: int| 0 <= j < def@.ctors.len() && !no_cond_params(#[trigger] def@.ctors[j]);
                if conv_ok(sm, *config) {
                    assert(no_cond_params(sm.funcs[i as int].1.ctors[j]));
                }
            }
            return false;
        }
        assert forall|k: int, j: int| 0 <= k < i + 1 && 0 <= j < (#[trigger] f[k]).1.ctors.len() implies no_cond_params(#[trigger] f[k].1.ctors[j]) by {
            if k == i as int {
                assert(f[k].1.ctors[j] == def@.ctors[j]);
            }
        }
        i += 1;
    }
    true
}

fn union_from_exec(config: &CodegenScheme, full: &str, def: &TypeDef) -> (r: String)
    requires
        forall|j: int| 0 <= j < def@.ctors.len() ==> no_cond_params(#[trigger] def@.ctors[j]),
    ensures
        r@ == union_from(*config, full@, def@),
{
    let mut s = String::from_str("\ntemplate <>\n");
    s.append(full);
    s.append(" tl_from<");
    s.append(full);
    s.append(">(ExternalResponse response) {\n");
    if def.nullable {
        s.append("\tif (!response) {\n\t\treturn nullptr;\n\t}\n\n");
    } else {
        s.append("\tExpects(response != nullptr);\n\n");
    }
    s.append("\tswitch (response->get_id()) {\n");
    let ghost s0 = s@;
    let ghost cs = def@.ctors;
    let mut j: usize = 0;
    while j < def.ctors.len()
        invariant
            j <= def.ctors@.len(),
            cs == def@.ctors,
            cs.len() == def.ctors@.len(),
            forall|k: int| 0 <= k < cs.len() ==> no_cond_params(#[trigger] cs[k]),
            s@ == s0 + union_cases(*config, cs.take(j as int)),
        decreases def.ctors.len() - j,
    {
        assert(cs.take(j + 1).drop_last() =~= cs.take(j as int));
        assert(cs.take(j + 1).last() == def.ctors@[j as int]@);
        assert(cs[j as int] == def.ctors@[j as int]@);
        let c = &def.ctors[j];
        let cname = conversion_name(config, c.name.as_str());
        let mut line = String::from_str("\tcase ");
        line.append(cname.as_str());
        line.append("::ID: ");
        if params_empty(c) {
            line.append("return ");
            line.append(config.prefixes.construct.as_str());
            line.append(c.name.as_str());
            line.append("();\n");
        } else {
            let args = from_args_exec(config, c);
            line.append("{\n\t\tconst auto specific = static_cast<const ");
            line.append(cname.as_str());
            line.append("*>(response);\n");
            line.append("\t\treturn ");
            line.append(config.prefixes.construct.as_str());
            line.append(c.name.as_str());
            line.append("(");
            line.append(args.as_str());
            line.append(");\n\t} break;\n");
        }
        s.append(line.as_str());
        j += 1;
    }
    assert(cs.take(cs.len() as int) =~= cs);
    s.append("\tdefault: Unexpected(\"Type in ");
    s.append(full);
    s.append(" tl_from.\");\n\t}\n}\n");
    s
}

fn type_to_exec(config: &CodegenScheme, key: &str, def: &TypeDef) -> (r: String)
    requires
        def@.ctors.len() > 0,
    ensures
        r@ == type_to(*config, key@, def@),
{
    let full = full_type(config, key);
    assert(def@.ctors[0] == def.ctors@[0]@);
    let ctype = if def.ctors.len() > 1 { key } else { def.ctors[0].name.as_str() };
    let cn = conversion_name(config, ctype);
    let mut s = String::from_str("\n");
    s.append(cn.as_str());
    s.append(" *tl_to(const ");
    s.append(full.as_str());
    s.append(" &value) {\n");
    if def.with_type {
        s.append("\tswitch (value.type()) {\n");
        if def.nullable {
            s.append("\tcase ");
            s.append(config.types.type_id.as_str());
            s.append("(0): return nullptr;\n");
        }
        let ghost s0 = s@;
        let ghost cs = def@.ctors;
        let idp = config.id_prefix();
        let mut j: usize = 0;
        while j < def.ctors.len()
            invariant
                j <= def.ctors@.len(),
                cs == def@.ctors,
                cs.len() == def.ctors@.len(),
                idp@ == config.spec_id_prefix(),
                s@ == s0 + to_cases(*config, cs.take(j as int)),
            decreases def.ctors.len() - j,
        {
            assert(cs.take(j + 1).drop_last() =~= cs.take(j as int));
            assert(cs.take(j + 1).last() == def.ctors@[j as int]@);
            let c = &def.ctors[j];
            let mut line = String::from_str("\tcase ");
            line.append(idp.as_str());
            line.append(c.name.as_str());
            if c.params.len() == c.trivial_conditions.len() {
                let cname = conversion_name(config, c.name.as_str());
                line.append(": return new ");
                line.append(cname.as_str());
                line.append("();\n");
            } else {
                line.append(": return tl_to(value.c_");
                line.append(c.name.as_str());
                line.append("());\n");
            }
            s.append(line.as_str());
            j += 1;
        }
        assert(cs.take(cs.len() as int) =~= cs);
        s.append("\tdefault: Unexpected(\"Type in tl_to(");
        s.append(full.as_str());
        s.append(").\");\n\t}\n");
    } else {
        if def.nullable {
            s.append("\tif (!value) {\n\t\treturn nullptr;\n\t}\n");
        }
        s.append("\treturn tl_to(value.c_");
        s.append(def.ctors[0].name.as_str());
        s.append("());\n");
    }
    s.append("}\n");
    s
}

fn single_from_exec(config: &CodegenScheme, full: &str, nullable: bool, c: &Constructor) -> (r: String)
    requires
        no_cond_params(c@),
    ensures
        r@ == single_from(*config, full@, nullable, c@),
{
    let cname = conversion_name(config, c.name.as_str());
    let mut s = String::from_str("\ntemplate <>\n");
    s.append(full);
    s.append(" tl_from<");
    s.append(full);
    s.append(">(ExternalResponse response) {\n");
    if nullable {
        s.append("\tif (!response) {\n\t\treturn nullptr;\n\t}\n\n");
    } else {
        s.append("\tExpects(response != nullptr);\n");
        s.append("\tExpects(response->get_id() == ");
        s.append(cname.as_str());
        s.append("::ID);\n\n");
    }
    if c.params.len() > 0 {
        s.append("\tconst auto specific = static_cast<const ");
        s.append(cname.as_str());
        s.append("*>(response);\n");
    }
    let n = normalized_name(c.name.as_str());
    let args = from_args_exec(config, c);
    s.append("\treturn ");
    s.append(config.prefixes.construct.as_str());
    s.append(n.as_str());
    s.append("(");
    s.append(args.as_str());
    s.append(");\n}\n");
    s
}

fn ctor_conv_exec(config: &CodegenScheme, scheme: &Scheme, full: &str, single: bool, nullable: bool, c: &Constructor, cv: &mut Conv)
    requires
        no_cond_params(c@),
    ensures
        final(cv)@ == ctor_conv_step(*config, table_view(scheme.types), full@, single, nullable, c@, old(cv)@),
{
    if single {
        let sf = single_from_exec(config, full, nullable, c);
        let fd = from_decl_exec(full);
        cv.header_from.append(fd.as_str());
        cv.source_from.append(sf.as_str());
    }
    let mut df = config.prefixes.data.clone();
    let n = normalized_name(c.name.as_str());
    df.append(n.as_str());
    let cname = conversion_name(config, c.name.as_str());
    let args = to_args_exec(config, scheme, c);
    cv.header_to.append(cname.as_str());
    cv.header_to.append(" *tl_to(const ");
    cv.header_to.append(df.as_str());
    cv.header_to.append(" &value);\n");
    cv.source_to.append("\n");
    cv.source_to.append(cname.as_str());
    cv.source_to.append(" *tl_to(const ");
    cv.source_to.append(df.as_str());
    cv.source_to.append(" &value) {\n");
    cv.source_to.append("\treturn new ");
    cv.source_to.append(cname.as_str());
    cv.source_to.append("(");
    cv.source_to.append(args.as_str());
    cv.source_to.append(");\n}\n");
    proof {
        let ghost st = if single {
            ConvModel {
                header_from: old(cv)@.header_from + from_decl(full@),
                source_from: old(cv)@.source_from + single_from(*config, full@, nullable, c@),
                ..old(cv)@
            }
        } else {
            old(cv)@
        };
        assert(cv@ =~= ctor_conv_step(*config, table_view(scheme.types), full@, single, nullable, c@, old(cv)@));
    }
}

fn conv_type_exec(config: &CodegenScheme, scheme: &Scheme, key: &str, def: &TypeDef, cv: &mut Conv)
    requires
        !conv_skipped(*config, key@) ==> def@.ctors.len() > 0,
        !conv_skipped(*config, key@) ==> forall|j: int| 0 <= j < def@.ctors.len() ==> no_cond_params(#[trigger] def@.ctors[j]),
    ensures
        final(cv)@ == conv_type_step(*config, table_view(scheme.types), key@, def@, old(cv)@),
{
    let skip = contains_str(&config.builtin, key) || match &config.conversion {
        Some(c) => contains_str(&c.builtin_additional, key),
        None => false,
    };
    if skip {
        return;
    }
    let full = full_type(config, key);
    if def.ctors.len() > 1 {
        let uf = union_from_exec(config, full.as_str(), def);
        let fd = from_decl_exec(full.as_str());
        cv.header_from.append(fd.as_str());
        cv.source_from.append(uf.as_str());
    }
    assert(def@.ctors[0] == def.ctors@[0]@);
    let ctype = if def.ctors.len() > 1 { key } else { def.ctors[0].name.as_str() };
    let cn = conversion_name(config, ctype);
    let tt = type_to_exec(config, key, def);
    cv.header_to.append(cn.as_str());
    cv.header_to.append(" *tl_to(const ");
    cv.header_to.append(full.as_str());
    cv.header_to.append(" &value);\n");
    cv.source_to.append(tt.as_str());
    let ghost st1 = cv@;
    let ghost cs = def@.ctors;
    let single = def.ctors.len() == 1;
    let mut j: usize = 0;
    while j < def.ctors.len()
        invariant
            j <= def.ctors@.len(),
            cs == def@.ctors,
            cs.len() == def.ctors@.len(),
            forall|k: int| 0 <= k < cs.len() ==> no_cond_params(#[trigger] cs[k]),
            cv@ == ctor_conv_fold(*config, table_view(scheme.types), full@, single, def@.nullable, cs.take(j as int), st1),
        decreases def.ctors.len() - j,
    {
        assert(cs.take(j + 1).drop_last() =~= cs.take(j as int));
        assert(cs.take(j + 1).last() == def.ctors@[j as int]@);
        assert(cs[j as int] == def.ctors@[j as int]@);
        ctor_conv_exec(config, scheme, full.as_str(), single, def.nullable, &def.ctors[j], cv);
        j += 1;
    }
    assert(cs.take(cs.len() as int) =~= cs);
    proof {
        let ghost st = if def@.ctors.len() > 1 {
            ConvModel {
                header_from: old(cv)@.header_from + from_decl(full@),
                source_from: old(cv)@.source_from + union_from(*config, full@, def@),
                ..old(cv)@
            }
        } else {
            old(cv)@
        };
        assert(st1 =~= ConvModel {
            header_to: st.header_to + conv_name(*config, if def@.ctors.len() > 1 { key@ } else { def@.ctors[0].name })
                + " *tl_to(const "@ + full@ + " &value);\n"@,
            source_to: st.source_to + type_to(*config, key@, def@),
            ..st
        });
    }
}

fn gen(scheme: &Scheme, config: &CodegenScheme) -> (r: Conv)
    requires
        conv_ok(scheme_view(*scheme), *config),
    ensures
        r@ == spec_conv(scheme_view(*scheme), *config),
{
    let mut cv = Conv { header_from: String::new(), source_from: String::new(), header_to: String::new(), source_to: String::new() };
    assert(cv@ =~= conv_empty());
    if config.conversion.is_none() {
        return cv;
    }
    let ghost t = table_view(scheme.types);
    let n = table_len(&scheme.types);
    let mut i: usize = 0;
    while i < n
        invariant
            i <= n,
            n == t.len(),
            t == table_view(scheme.types),
            config.conversion is Some,
            conv_ok(scheme_view(*scheme), *config),
            cv@ == conv_types_fold(*config, t, t.take(i as int), conv_empty()),
        decreases n - i,
    {
        assert(t.take(i + 1).drop_last() =~= t.take(i as int));
        let (key, def) = table_get_index(&scheme.types, i).unwrap();
        assert(t.take(i + 1).last() == (key@, def@));
        assert(t[i as int] == (key@, def@));
        assert(scheme_view(*scheme).types == t);
        assert(scheme_view(*scheme).types[i as int] == (key@, def@));
        proof {
            if !conv_skipped(*config, key@) {
                assert forall|j: int| 0 <= j < def@.ctors.len() implies no_cond_params(#[trigger] def@.ctors[j]) by {
                    assert(scheme_view(*scheme).types[i as int].1.ctors[j] == def@.ctors[j]);
                }
            }
        }
        conv_type_exec(config, scheme, key.as_str(), def, &mut cv);
        i += 1;
    }
    assert(t.take(t.len() as int) =~= t);
    let ghost f = table_view(scheme.funcs);
    let ghost acc0 = cv@.source_to;
    let ghost cv1 = cv@;
    let nf = table_len(&scheme.funcs);
    let mut i: usize = 0;
    while i < nf
        invariant
            i <= nf,
            nf == f.len(),
            f == table_view(scheme.funcs),
            t == table_view(scheme.types),
            config.conversion is Some,
            conv_ok(scheme_view(*scheme), *config),
            cv@ == (ConvModel { source_to: conv_funcs_fold(acc0, *config, t, f.take(i as int)), ..cv1 }),
        decreases nf - i,
    {
        assert(f.take(i + 1).drop_last() =~= f.take(i as int));
        let (_, def) = table_get_index(&scheme.funcs, i).unwrap();
        assert(f.take(i + 1).last().1 == def@);
        assert(f[i as int].1 == def@);
        let ghost base = cv@.source_to;
        let ghost cs = def@.ctors;
        assert(scheme_view(*scheme).funcs == f);
        assert forall|k: int| 0 <= k < cs.len() implies no_cond_params(#[trigger] cs[k]) by {
            assert(scheme_view(*scheme).funcs[i as int].1.ctors[k] == cs[k]);
        }
        assert(cs.take(0) =~= Seq::<CtorModel>::empty());
        assert(cv@ =~= (ConvModel { source_to: generators_of(base, *config, t, cs.take(0)), ..cv1 }));
        let mut j: usize = 0;
        while j < def.ctors.len()
            invariant
                j <= def.ctors@.len(),
                cs == def@.ctors,
                cs.len() == def.ctors@.len(),
                t == table_view(scheme.types),
                forall|k: int| 0 <= k < cs.len() ==> no_cond_params(#[trigger] cs[k]),
                cv@ == (ConvModel { source_to: generators_of(base, *config, t, cs.take(j as int)), ..cv1 }),
            decreases def.ctors.len() - j,
        {
            assert(cs.take(j + 1).drop_last() =~= cs.take(j as int));
            assert(cs.take(j + 1).last() == def.ctors@[j as int]@);
            assert(cs[j as int] == def.ctors@[j as int]@);
            let c = &def.ctors[j];
            let full = full_type(config, c.name.as_str());
            let cname = conversion_name(config, c.name.as_str());
            let args = to_args_exec(config, scheme, c);
            let mut line = String::from_str("\ntemplate <>\nExternalGenerator tl_to_generator(");
            line.append(full.as_str());
            line.append(" &&request) {\n\treturn [value = std::move(request)]() -> ExternalRequest {\n\t\treturn new ");
            line.append(cname.as_str());
            line.append("(");
            line.append(args.as_str());
            line.append(");\n\t};\n}\n");
            cv.source_to.append(line.as_str());
            assert(cv@ =~= (ConvModel { source_to: generators_of(base, *config, t, cs.take(j + 1)), ..cv1 }));
            j += 1;
        }
        assert(cs.take(cs.len() as int) =~= cs);
        i += 1;
    }
    assert(f.take(f.len() as int) =~= f);
    cv
}


// ---------------------------------------------------------------------------
// Files
// ---------------------------------------------------------------------------

/// Generated-file banner, then `head`, `body` and `tail`.
pub open spec fn banner_text(names: Seq<Seq<char>>, head: Seq<char>, body: Seq<char>, tail: Seq<char>) -> Seq<char> {
    "// WARNING! All changes made in this file will be lost!\n// Created from "@ + quoted_names(names)
        + " by 'generate.py'\n//\n"@ + head + body + tail
}

fn banner(scheme: &Scheme, head: &str, body: &str, tail: &str) -> (r: String)
    ensures
        r@ == banner_text(views(scheme.input_names@), head@, body@, tail@),
{
    let names = quoted_names_exec(&scheme.input_names);
    let mut s = String::from_str("// WARNING! All changes made in this file will be lost!\n// Created from ");
    s.append(names.as_str());
    s.append(" by 'generate.py'\n//\n");
    s.append(head);
    s.append(body);
    s.append(tail);
    s
}

/// Head of a conversion header: its own header, the scheme header, the
/// global namespace.
pub open spec fn conv_header_head(cfg: CodegenScheme, own: Seq<char>, basename: Seq<char>) -> Seq<char> {
    let global = cfg.namespaces.global@;
    let h = "#pragma once\n\n"@ + "#include \""@ + own + "\"\n"@ + "#include \""@ + basename + "\"\n\n"@;
    if global.len() > 0 { h + "namespace "@ + global + " {\n\n"@ } else { h }
}

/// Tail of a conversion header: closing namespace, then the builtin
/// conversions header when configured.
pub open spec fn conv_header_tail(cfg: CodegenScheme, extra: Seq<char>) -> Seq<char> {
    let global = cfg.namespaces.global@;
    let t = Seq::<char>::empty();
    let t = if global.len() > 0 { t + "} // namespace "@ + global + "\n"@ } else { t };
    if extra.len() > 0 { t + "\n#include \""@ + extra + "\"\n"@ } else { t }
}

/// Head of a conversion source: its header, the global namespace.
pub open spec fn conv_source_head(cfg: CodegenScheme, basename: Seq<char>) -> Seq<char> {
    let global = cfg.namespaces.global@;
    let h = "#include \""@ + basename + "\"\n\n"@;
    if global.len() > 0 { h + "namespace "@ + global + " {\n"@ } else { h }
}

pub open spec fn conv_source_tail(cfg: CodegenScheme) -> Seq<char> {
    let global = cfg.namespaces.global@;
    let t = Seq::<char>::empty();
    if global.len() > 0 { t + "} // namespace "@ + global + "\n"@ } else { t }
}

fn conv_header_head_exec(config: &CodegenScheme, own: &str, basename: &str) -> (r: String)
    ensures
        r@ == conv_header_head(*config, own@, basename@),
{
    let global = config.namespaces.global.as_str();
    let mut h = String::from_str("#pragma once\n\n");
    h.append("#include \"");
    h.append(own);
    h.append("\"\n");
    h.append("#include \"");
    h.append(basename);
    h.append("\"\n\n");
    if global.unicode_len() > 0 {
        h.append("namespace ");
        h.append(global);
        h.append(" {\n\n");
    }
    h
}

fn conv_header_tail_exec(config: &CodegenScheme, extra: &str) -> (r: String)
    ensures
        r@ == conv_header_tail(*config, extra@),
{
    let global = config.namespaces.global.as_str();
    let mut t = String::new();
    if global.unicode_len() > 0 {
        t.append("} // namespace ");
        t.append(global);
        t.append("\n");
    }
    if extra.unicode_len() > 0 {
        t.append("\n#include \"");
        t.append(extra);
        t.append("\"\n");
    }
    t
}

fn conv_source_head_exec(config: &CodegenScheme, basename: &str) -> (r: String)
    ensures
        r@ == conv_source_head(*config, basename@),
{
    let global = config.namespaces.global.as_str();
    let mut h = String::from_str("#include \"");
    h.append(basename);
    h.append("\"\n\n");
    if global.unicode_len() > 0 {
        h.append("namespace ");
        h.append(global);
        h.append(" {\n");
    }
    h
}

fn conv_source_tail_exec(config: &CodegenScheme) -> (r: String)
    ensures
        r@ == conv_source_tail(*config),
{
    let global = config.namespaces.global.as_str();
    let mut t = String::new();
    if global.unicode_len() > 0 {
        t.append("} // namespace ");
        t.append(global);
        t.append("\n");
    }
    t
}

/// `-conversion-from.h` text (empty without a conversion output).
pub open spec fn from_header_text(sm: SchemeModel, cfg: CodegenScheme, basename: Seq<char>) -> Seq<char> {
    match cfg.conversion {
        Some(cv) => banner_text(sm.input_names, conv_header_head(cfg, cv.header@, basename),
            spec_conv(sm, cfg).header_from, conv_header_tail(cfg, cv.builtin_header_from@)),
        None => Seq::empty(),
    }
}

/// `-conversion-to.h` text (empty without a conversion output).
pub open spec fn to_header_text(sm: SchemeModel, cfg: CodegenScheme, basename: Seq<char>) -> Seq<char> {
    match cfg.conversion {
        Some(cv) => banner_text(sm.input_names, conv_header_head(cfg, cv.header@, basename),
            spec_conv(sm, cfg).header_to, conv_header_tail(cfg, cv.builtin_header_to@)),
        None => Seq::empty(),
    }
}

/// `-conversion-from.cpp` text (empty without a conversion output).
pub open spec fn from_source_text(sm: SchemeModel, cfg: CodegenScheme, basename: Seq<char>) -> Seq<char> {
    if cfg.conversion is Some {
        banner_text(sm.input_names, conv_source_head(cfg, basename), spec_conv(sm, cfg).source_from, conv_source_tail(cfg))
    } else {
        Seq::empty()
    }
}

/// `-conversion-to.cpp` text (empty without a conversion output).
pub open spec fn to_source_text(sm: SchemeModel, cfg: CodegenScheme, basename: Seq<char>) -> Seq<char> {
    if cfg.conversion is Some {
        banner_text(sm.input_names, conv_source_head(cfg, basename), spec_conv(sm, cfg).source_to, conv_source_tail(cfg))
    } else {
        Seq::empty()
    }
}

pub fn emit_from_header(scheme: &Scheme, config: &CodegenScheme) -> (r: String)
    requires
        conv_ok(scheme_view(*scheme), *config),
    ensures
        r@ == from_header_text(scheme_view(*scheme), *config, "scheme.h"@),
{
    emit_from_header_with_basenames(scheme, config, "scheme.h")
}

pub fn emit_from_header_with_basenames(scheme: &Scheme, config: &CodegenScheme, scheme_header_basename: &str) -> (r: String)
    requires
        conv_ok(scheme_view(*scheme), *config),
    ensures
        r@ == from_header_text(scheme_view(*scheme), *config, scheme_header_basename@),
{
    let cv = gen(scheme, config);
    match &config.conversion {
        Some(c) => {
            let head = conv_header_head_exec(config, c.header.as_str(), scheme_header_basename);
            let tail = conv_header_tail_exec(config, c.builtin_header_from.as_str());
            banner(scheme, head.as_str(), cv.header_from.as_str(), tail.as_str())
        },
        None => String::new(),
    }
}

pub fn emit_to_header(scheme: &Scheme, config: &CodegenScheme) -> (r: String)
    requires
        conv_ok(scheme_view(*scheme), *config),
    ensures
        r@ == to_header_text(scheme_view(*scheme), *config, "scheme.h"@),
{
    emit_to_header_with_basenames(scheme, config, "scheme.h")
}

pub fn emit_to_header_with_basenames(scheme: &Scheme, config: &CodegenScheme, scheme_header_basename: &str) -> (r: String)
    requires
        conv_ok(scheme_view(*scheme), *config),
    ensures
        r@ == to_header_text(scheme_view(*scheme), *config, scheme_header_basename@),
{
    let cv = gen(scheme, config);
    match &config.conversion {
        Some(c) => {
            let head = conv_header_head_exec(config, c.header.as_str(), scheme_header_basename);
            let tail = conv_header_tail_exec(config, c.builtin_header_to.as_str());
            banner(scheme, head.as_str(), cv.header_to.as_str(), tail.as_str())
        },
        None => String::new(),
    }
}

pub fn emit_from_source(scheme: &Scheme, config: &CodegenScheme) -> (r: String)
    requires
        conv_ok(scheme_view(*scheme), *config),
    ensures
        r@ == from_source_text(scheme_view(*scheme), *config, "scheme-conversion-from.h"@),
{
    emit_from_source_with_basenames(scheme, config, "scheme-conversion-from.h")
}

pub fn emit_from_source_with_basenames(scheme: &Scheme, config: &CodegenScheme, from_header_basename: &str) -> (r: String)
    requires
        conv_ok(scheme_view(*scheme), *config),
    ensures
        r@ == from_source_text(scheme_view(*scheme), *config, from_header_basename@),
{
    if config.conversion.is_none() {
        return String::new();
    }
    let cv = gen(scheme, config);
    let head = conv_source_head_exec(config, from_header_basename);
    let tail = conv_source_tail_exec(config);
    banner(scheme, head.as_str(), cv.source_from.as_str(), tail.as_str())
}

pub fn emit_to_source(scheme: &Scheme, config: &CodegenScheme) -> (r: String)
    requires
        conv_ok(scheme_view(*scheme), *config),
    ensures
        r@ == to_source_text(scheme_view(*scheme), *config, "scheme-conversion-to.h"@),
{
    emit_to_source_with_basenames(scheme, config, "scheme-conversion-to.h")
}

pub fn emit_to_source_with_basenames(scheme: &Scheme, config: &CodegenScheme, to_header_basename: &str) -> (r: String)
    requires
        conv_ok(scheme_view(*scheme), *config),
    ensures
        r@ == to_source_text(scheme_view(*scheme), *config, to_header_basename@),
{
    if config.conversion.is_none() {
        return String::new();
    }
    let cv = gen(scheme, config);
    let head = conv_source_head_exec(config, to_header_basename);
    let tail = conv_source_tail_exec(config);
    banner(scheme, head.as_str(), cv.source_to.as_str(), tail.as_str())
}

} // verus!
