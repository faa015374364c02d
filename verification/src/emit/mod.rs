//! C++ emitters over a parsed scheme, and `Writer`, an indented text
//! accumulator.

use vstd::prelude::*;
use crate::config::CodegenScheme;
use crate::ir::{Constructor, CtorModel, ParamModel};
use crate::parse::{normalized_name, optional_in_vector, spec_optional_in_vector};
use crate::resolve::{spec_full_data_name, spec_full_type_name};
use crate::text::{contains_str, join, join_exec, str_eq, views};

pub mod gen;
pub mod gen_types;
pub mod header;
pub mod source;
pub mod conversion;
pub mod dump;

verus! {

/// `n` tab characters.
pub open spec fn tabs(n: nat) -> Seq<char>
    decreases n,
{
    if n == 0 { Seq::empty() } else { tabs((n - 1) as nat).push('\t') }
}

/// A writer state one indent level deeper.
pub open spec fn indented(w: (Seq<char>, nat)) -> (Seq<char>, nat) {
    (w.0, w.1 + 1)
}

/// A writer state one indent level shallower, never below 0.
pub open spec fn dedented(w: (Seq<char>, nat)) -> (Seq<char>, nat) {
    (w.0, if w.1 == 0 { 0nat } else { (w.1 - 1) as nat })
}

/// Indenting and then dedenting gives back the same writer state.
pub proof fn law_indent_dedent(w: (Seq<char>, nat))
    ensures
        dedented(indented(w)) == w,
{
}

/// Indent changes never touch the text written so far.
pub proof fn law_indent_keeps_text(w: (Seq<char>, nat))
    ensures
        indented(w).0 == w.0,
        dedented(w).0 == w.0,
{
}

/// Indented C++ text accumulator.
#[derive(Debug)]
pub struct Writer {
    buf: String,
    indent: usize,
}

impl View for Writer {
    /// The text so far and the current indent level.
    type V = (Seq<char>, nat);

    closed spec fn view(&self) -> (Seq<char>, nat) {
        (self.buf@, self.indent as nat)
    }
}

impl Writer {
    /// Empty text at indent level 0.
    pub fn new() -> (w: Self)
        ensures
            w@ == (Seq::<char>::empty(), 0nat),
    {
        Writer { buf: String::new(), indent: 0 }
    }

    /// One level deeper.
    pub fn indent(&mut self)
        requires
            old(self)@.1 < usize::MAX,
        ensures
            final(self)@ == indented(old(self)@),
    {
        self.indent += 1;
    }

    /// One level shallower (never below 0).
    pub fn dedent(&mut self)
        ensures
            final(self)@ == dedented(old(self)@),
    {
        self.indent = self.indent.saturating_sub(1);
    }

    /// Push one line at the current indent: tabs, the text, a newline.
    pub fn line(&mut self, text: &str)
        ensures
            final(self)@ == (old(self)@.0 + tabs(old(self)@.1) + text@ + seq!['\n'], old(self)@.1),
    {
        let mut i: usize = 0;
        let ghost b0 = self.buf@;
        while i < self.indent
            invariant
                i <= self.indent,
                self.indent == old(self).indent,
                b0 == old(self).buf@,
                self.buf@ == b0 + tabs(i as nat),
            decreases self.indent - i,
        {
            crate::text::push_char(&mut self.buf, '\t');
            i += 1;
        }
        self.buf.append(text);
        crate::text::push_char(&mut self.buf, '\n');
    }

    /// Push raw text verbatim.
    pub fn raw(&mut self, text: &str)
        ensures
            final(self)@ == (old(self)@.0 + text@, old(self)@.1),
    {
        self.buf.append(text);
    }

    /// The accumulated text.
    pub fn into_string(self) -> (s: String)
        ensures
            s@ == self@.0,
    {
        self.buf
    }
}

/// Push already formatted text verbatim (the caller formats it).
pub fn push(w: &mut Writer, text: &str)
    ensures
        final(w)@ == (old(w)@.0 + text@, old(w)@.1),
{
    w.raw(text);
}

// ---------------------------------------------------------------------------
// Names and per-parameter pieces shared by the emitters
// ---------------------------------------------------------------------------

/// Type prefix + normalized name.
pub fn full_type(config: &CodegenScheme, name: &str) -> (r: String)
    ensures
        r@ == spec_full_type_name(*config, name@),
{
    let mut r = config.prefixes.type_.clone();
    let n = normalized_name(name);
    r.append(n.as_str());
    r
}

/// Data prefix + normalized name.
pub fn full_data(config: &CodegenScheme, name: &str) -> (r: String)
    ensures
        r@ == spec_full_data_name(*config, name@),
{
    let mut r = config.prefixes.data.clone();
    let n = normalized_name(name);
    r.append(n.as_str());
    r
}

/// `Vector<T>` with its element made optional; a plain
/// `Vector<std::optional<t>>` around the whole name when it is no vector.
pub open spec fn optional_vector_text(t: Seq<char>) -> Seq<char> {
    match spec_optional_in_vector(t) {
        Ok(s) => s,
        Err(_) => "Vector<std::optional<"@ + t + ">>"@,
    }
}

pub fn optional_vector(t: &str) -> (r: String)
    ensures
        r@ == optional_vector_text(t@),
{
    match optional_in_vector(t) {
        Ok(s) => s,
        Err(_) => {
            let mut s = String::from_str("Vector<std::optional<");
            s.append(t);
            s.append(">>");
            s
        },
    }
}

/// Parameter types passed by value rather than by reference.
pub open spec fn spec_is_scalar_param(t: Seq<char>) -> bool {
    t == "int"@ || t == "Int"@ || t == "bool"@ || t == "Bool"@ || t == "flags<Flags>"@
        || t == "long"@ || t == "int32"@ || t == "int53"@ || t == "int64"@ || t == "double"@
}

pub fn is_scalar_param(t: &str) -> (r: bool)
    ensures
        r == spec_is_scalar_param(t@),
{
    str_eq(t, "int") || str_eq(t, "Int") || str_eq(t, "bool") || str_eq(t, "Bool")
        || str_eq(t, "flags<Flags>") || str_eq(t, "long") || str_eq(t, "int32")
        || str_eq(t, "int53") || str_eq(t, "int64") || str_eq(t, "double")
}

/// `name` is one of the conditional parameters.
pub open spec fn has_cond(conds: Seq<(Seq<char>, u32)>, name: Seq<char>) -> bool {
    exists|i: int| 0 <= i < conds.len() && (#[trigger] conds[i]).0 == name
}

pub fn is_cond(c: &Constructor, name: &str) -> (r: bool)
    ensures
        r == has_cond(c@.conditions, name@),
{
    let mut i: usize = 0;
    while i < c.conditions.len()
        invariant
            i <= c.conditions@.len(),
            c@.conditions.len() == c.conditions@.len(),
            forall|j: int| 0 <= j < i ==> (#[trigger] c@.conditions[j]).0 != name@,
        decreases c.conditions.len() - i,
    {
        assert(c@.conditions[i as int].0 == c.conditions@[i as int].0@);
        if str_eq(c.conditions[i].0.as_str(), name) {
            return true;
        }
        i += 1;
    }
    false
}

/// A parameter with a stored field: neither a `true` flag nor bots-only.
pub open spec fn is_stored(c: CtorModel, name: Seq<char>) -> bool {
    !c.trivial_conditions.contains(name) && !c.bots_only_params.contains(name)
}

pub fn is_stored_exec(c: &Constructor, name: &str) -> (r: bool)
    ensures
        r == is_stored(c@, name@),
{
    !contains_str(&c.trivial_conditions, name) && !contains_str(&c.bots_only_params, name)
}

/// The parameters of `ps` with a stored field, in order.
pub open spec fn stored_of(c: CtorModel, ps: Seq<ParamModel>) -> Seq<ParamModel>
    decreases ps.len(),
{
    if ps.len() == 0 {
        Seq::empty()
    } else if is_stored(c, ps.last().name) {
        stored_of(c, ps.drop_last()).push(ps.last())
    } else {
        stored_of(c, ps.drop_last())
    }
}

/// One constructor argument: by value for scalars, by const reference
/// otherwise, optional-wrapped where the parameter is nullable.
pub open spec fn param_arg(c: CtorModel, name: Seq<char>, tl_type: Seq<char>, ptf: Seq<char>) -> Seq<char> {
    if spec_is_scalar_param(tl_type) {
        ptf + " "@ + name + "_"@
    } else if c.nullable_vectors.contains(name) {
        "const "@ + optional_vector_text(ptf) + " &"@ + name + "_"@
    } else if c.nullable_params.contains(name) {
        "const std::optional<"@ + ptf + "> &"@ + name + "_"@
    } else {
        "const "@ + ptf + " &"@ + name + "_"@
    }
}

pub fn param_arg_exec(c: &Constructor, name: &str, tl_type: &str, ptf: &str) -> (r: String)
    ensures
        r@ == param_arg(c@, name@, tl_type@, ptf@),
{
    if is_scalar_param(tl_type) {
        let mut s = String::from_str(ptf);
        s.append(" ");
        s.append(name);
        s.append("_");
        s
    } else if contains_str(&c.nullable_vectors, name) {
        let opt = optional_vector(ptf);
        let mut s = String::from_str("const ");
        s.append(opt.as_str());
        s.append(" &");
        s.append(name);
        s.append("_");
        s
    } else if contains_str(&c.nullable_params, name) {
        let mut s = String::from_str("const std::optional<");
        s.append(ptf);
        s.append("> &");
        s.append(name);
        s.append("_");
        s
    } else {
        let mut s = String::from_str("const ");
        s.append(ptf);
        s.append(" &");
        s.append(name);
        s.append("_");
        s
    }
}

/// `_name(name_)`
pub open spec fn param_init(name: Seq<char>) -> Seq<char> {
    "_"@ + name + "("@ + name + "_)"@
}

pub fn param_init_exec(name: &str) -> (r: String)
    ensures
        r@ == param_init(name@),
{
    let mut s = String::from_str("_");
    s.append(name);
    s.append("(");
    s.append(name);
    s.append("_)");
    s
}

/// One private field declaration.
pub open spec fn field_decl(c: CtorModel, name: Seq<char>, ptf: Seq<char>) -> Seq<char> {
    if c.nullable_vectors.contains(name) {
        "\t"@ + optional_vector_text(ptf) + " _"@ + name + ";\n"@
    } else if c.nullable_params.contains(name) {
        "\tstd::optional<"@ + ptf + "> _"@ + name + ";\n"@
    } else {
        "\t"@ + ptf + " _"@ + name + ";\n"@
    }
}

pub fn field_decl_exec(c: &Constructor, name: &str, ptf: &str) -> (r: String)
    ensures
        r@ == field_decl(c@, name@, ptf@),
{
    if contains_str(&c.nullable_vectors, name) {
        let opt = optional_vector(ptf);
        let mut s = String::from_str("\t");
        s.append(opt.as_str());
        s.append(" _");
        s.append(name);
        s.append(";\n");
        s
    } else if contains_str(&c.nullable_params, name) {
        let mut s = String::from_str("\tstd::optional<");
        s.append(ptf);
        s.append("> _");
        s.append(name);
        s.append(";\n");
        s
    } else {
        let mut s = String::from_str("\t");
        s.append(ptf);
        s.append(" _");
        s.append(name);
        s.append(";\n");
        s
    }
}

/// Getter declaration and definition for one stored parameter of `owner`.
pub open spec fn getter_texts(
    owner: Seq<char>,
    name: Seq<char>,
    ptf: Seq<char>,
    is_conditional: bool,
    is_nullable_vec: bool,
    is_nullable: bool,
    flags: Seq<char>,
) -> (Seq<char>, Seq<char>) {
    if is_conditional {
        (
            "\t[[nodiscard]] tl::conditional<"@ + ptf + "> v"@ + name + "() const;\n"@,
            "tl::conditional<"@ + ptf + "> "@ + owner + "::v"@ + name + "() const {\n"@
                + "\treturn (_"@ + flags + ".v & Flag::f_"@ + name + ") ? &_"@ + name + " : nullptr;\n"@
                + "}\n"@,
        )
    } else if is_nullable_vec {
        (
            "\t[[nodiscard]] const "@ + optional_vector_text(ptf) + " &v"@ + name + "() const;\n"@,
            "const "@ + optional_vector_text(ptf) + " &"@ + owner + "::v"@ + name + "() const {\n\treturn _"@ + name + ";\n}\n"@,
        )
    } else if is_nullable {
        (
            "\t[[nodiscard]] tl::conditional<"@ + ptf + "> v"@ + name + "() const;\n"@,
            "tl::conditional<"@ + ptf + "> "@ + owner + "::v"@ + name + "() const {\n"@
                + "\treturn _"@ + name + " ? &*_"@ + name + " : nullptr;\n}\n"@,
        )
    } else {
        (
            "\t[[nodiscard]] const "@ + ptf + " &v"@ + name + "() const;\n"@,
            "const "@ + ptf + " &"@ + owner + "::v"@ + name + "() const {\n\treturn _"@ + name + ";\n}\n"@,
        )
    }
}

pub fn getter_decl(
    owner: &str,
    name: &str,
    ptf: &str,
    is_conditional: bool,
    is_nullable_vec: bool,
    is_nullable: bool,
    flags: &str,
) -> (r: (String, String))
    ensures
        (r.0@, r.1@) == getter_texts(owner@, name@, ptf@, is_conditional, is_nullable_vec, is_nullable, flags@),
{
    if is_conditional {
        let mut d = String::from_str("\t[[nodiscard]] tl::conditional<");
        d.append(ptf);
        d.append("> v");
        d.append(name);
        d.append("() const;\n");
        let mut b = String::from_str("tl::conditional<");
        b.append(ptf);
        b.append("> ");
        b.append(owner);
        b.append("::v");
        b.append(name);
        b.append("() const {\n");
        b.append("\treturn (_");
        b.append(flags);
        b.append(".v & Flag::f_");
        b.append(name);
        b.append(") ? &_");
        b.append(name);
        b.append(" : nullptr;\n");
        b.append("}\n");
        (d, b)
    } else if is_nullable_vec {
        let opt = optional_vector(ptf);
        let mut d = String::from_str("\t[[nodiscard]] const ");
        d.append(opt.as_str());
        d.append(" &v");
        d.append(name);
        d.append("() const;\n");
        let mut b = String::from_str("const ");
        b.append(opt.as_str());
        b.append(" &");
        b.append(owner);
        b.append("::v");
        b.append(name);
        b.append("() const {\n\treturn _");
        b.append(name);
        b.append(";\n}\n");
        (d, b)
    } else if is_nullable {
        let mut d = String::from_str("\t[[nodiscard]] tl::conditional<");
        d.append(ptf);
        d.append("> v");
        d.append(name);
        d.append("() const;\n");
        let mut b = String::from_str("tl::conditional<");
        b.append(ptf);
        b.append("> ");
        b.append(owner);
        b.append("::v");
        b.append(name);
        b.append("() const {\n");
        b.append("\treturn _");
        b.append(name);
        b.append(" ? &*_");
        b.append(name);
        b.append(" : nullptr;\n}\n");
        (d, b)
    } else {
        let mut d = String::from_str("\t[[nodiscard]] const ");
        d.append(ptf);
        d.append(" &v");
        d.append(name);
        d.append("() const;\n");
        let mut b = String::from_str("const ");
        b.append(ptf);
        b.append(" &");
        b.append(owner);
        b.append("::v");
        b.append(name);
        b.append("() const {\n\treturn _");
        b.append(name);
        b.append(";\n}\n");
        (d, b)
    }
}

/// `'a', 'b', ...`: the input names, quoted and comma-separated.
pub open spec fn quoted(n: Seq<char>) -> Seq<char> {
    "'"@ + n + "'"@
}

pub open spec fn quoted_names(names: Seq<Seq<char>>) -> Seq<char> {
    join(names.map_values(|n: Seq<char>| quoted(n)), ", "@)
}

pub fn quoted_names_exec(names: &Vec<String>) -> (r: String)
    ensures
        r@ == quoted_names(views(names@)),
{
    let mut q: Vec<String> = Vec::new();
    let mut i: usize = 0;
    while i < names.len()
        invariant
            i <= names@.len(),
            views(q@) == views(names@).take(i as int).map_values(|n: Seq<char>| quoted(n)),
        decreases names.len() - i,
    {
        let mut s = String::from_str("'");
        s.append(names[i].as_str());
        s.append("'");
        let ghost oq = q@;
        q.push(s);
        assert(views(q@) =~= views(oq).push(quoted(names@[i as int]@)));
        assert(views(names@).take(i + 1).map_values(|n: Seq<char>| quoted(n))
            =~= views(names@).take(i as int).map_values(|n: Seq<char>| quoted(n)).push(quoted(names@[i as int]@)));
        i += 1;
    }
    assert(views(names@).take(names@.len() as int) =~= views(names@));
    join_exec(&q, ", ")
}

} // verus!
