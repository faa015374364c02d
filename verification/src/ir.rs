//! Intermediate representation of a parsed scheme: ordered type and
//! function tables (an `IndexMap` from result type to its constructors),
//! the layer, the warnings and the type-id enum lines; and their
//! mathematical models.

use vstd::prelude::*;
use indexmap::IndexMap;
use crate::text::views;

verus! {

/// One `pname:type` parameter after template resolution.
#[derive(Debug, Clone)]
pub struct Param {
    pub name: String,
    /// Normalized type after template resolution.
    pub tl_type: String,
    pub raw_tl_type: String,
    /// Flag bit if conditional (`flags.N?`), `None` if unconditional.
    pub flag_bit: Option<u32>,
    pub is_true_flag: bool,
}

/// One constructor: `name#id params = Result;`.
#[derive(Debug, Clone)]
pub struct Constructor {
    /// `ns.cons` -> `ns_cons`.
    pub name: String,
    /// TL name as written in the scheme, before renaming.
    pub tl_name: String,
    /// Class-style name: `ns.cons` -> `ns_Cons`, `foo` -> `Foo`.
    pub alias_name: String,
    /// `ns.Box` -> `ns_box`.
    pub bare_name: String,
    /// Type prefix applied.
    pub full_name: String,
    /// Data prefix applied.
    pub full_data_name: String,
    pub type_id: u32,
    pub params: Vec<Param>,
    pub has_flags: bool,
    pub has_flags64: bool,
    /// `flags` field name, empty when none.
    pub flags_name: String,
    /// `flags2` field name, empty when none.
    pub flags64_name: String,
    /// Template query parameter name, empty when none.
    pub template_param: String,
    /// `{X:Type}` placeholder variable, empty when none.
    pub template_var: String,
    /// `(pname, bit)` in order.
    pub conditions: Vec<(String, u32)>,
    /// Conditional parameters of type `true`.
    pub trivial_conditions: Vec<String>,
    pub is_template: bool,
    pub has_template: bool,
    pub nullable_params: Vec<String>,
    pub nullable_vectors: Vec<String>,
    pub bots_only_params: Vec<String>,
}

/// One result type: all its constructors plus derived flags.
#[derive(Debug, Clone)]
pub struct TypeDef {
    /// Normalized bare result-type name, e.g. `res_p_q`.
    pub restype: String,
    /// Boxed alias, e.g. `ResPQ`.
    pub boxed_name: String,
    pub ctors: Vec<Constructor>,
    /// More than one constructor (polymorphic).
    pub with_type: bool,
    /// Some constructor has stored fields.
    pub with_data: bool,
    /// The result type is configured nullable.
    pub nullable: bool,
}

/// Whole parsed scheme: ordered type/function tables, layer, warnings.
#[derive(Debug)]
pub struct Scheme {
    /// Last `// LAYER` seen.
    pub layer: u32,
    /// Basenames of the input `.tl` files, in order.
    pub input_names: Vec<String>,
    /// Result type -> definition, in first-seen order.
    pub types: IndexMap<String, TypeDef>,
    /// Same for `---functions---`.
    pub funcs: IndexMap<String, TypeDef>,
    /// Problems found on the way (the offending lines are skipped).
    pub warnings: Vec<String>,
    /// `\t<id prefix><name> = 0x<id>` lines in emission order.
    pub enums: Vec<String>,
}

// ---------------------------------------------------------------------------
// Models
// ---------------------------------------------------------------------------

pub struct ParamModel {
    pub name: Seq<char>,
    pub tl_type: Seq<char>,
    pub raw_tl_type: Seq<char>,
    pub flag_bit: Option<u32>,
    pub is_true_flag: bool,
}

pub struct CtorModel {
    pub name: Seq<char>,
    pub tl_name: Seq<char>,
    pub alias_name: Seq<char>,
    pub bare_name: Seq<char>,
    pub full_name: Seq<char>,
    pub full_data_name: Seq<char>,
    pub type_id: u32,
    pub params: Seq<ParamModel>,
    pub has_flags: bool,
    pub has_flags64: bool,
    pub flags_name: Seq<char>,
    pub flags64_name: Seq<char>,
    pub template_param: Seq<char>,
    pub template_var: Seq<char>,
    pub conditions: Seq<(Seq<char>, u32)>,
    pub trivial_conditions: Seq<Seq<char>>,
    pub is_template: bool,
    pub has_template: bool,
    pub nullable_params: Seq<Seq<char>>,
    pub nullable_vectors: Seq<Seq<char>>,
    pub bots_only_params: Seq<Seq<char>>,
}

pub struct TypeDefModel {
    pub restype: Seq<char>,
    pub boxed_name: Seq<char>,
    pub ctors: Seq<CtorModel>,
    pub with_type: bool,
    pub with_data: bool,
    pub nullable: bool,
}

pub struct SchemeModel {
    pub layer: u32,
    pub input_names: Seq<Seq<char>>,
    pub types: Seq<(Seq<char>, TypeDefModel)>,
    pub funcs: Seq<(Seq<char>, TypeDefModel)>,
    pub warnings: Seq<Seq<char>>,
    pub enums: Seq<Seq<char>>,
}

impl View for Param {
    type V = ParamModel;

    open spec fn view(&self) -> ParamModel {
        ParamModel {
            name: self.name@,
            tl_type: self.tl_type@,
            raw_tl_type: self.raw_tl_type@,
            flag_bit: self.flag_bit,
            is_true_flag: self.is_true_flag,
        }
    }
}

pub open spec fn cond_views(v: Seq<(String, u32)>) -> Seq<(Seq<char>, u32)> {
    v.map_values(|c: (String, u32)| (c.0@, c.1))
}

impl View for Constructor {
    type V = CtorModel;

    open spec fn view(&self) -> CtorModel {
        CtorModel {
            name: self.name@,
            tl_name: self.tl_name@,
            alias_name: self.alias_name@,
            bare_name: self.bare_name@,
            full_name: self.full_name@,
            full_data_name: self.full_data_name@,
            type_id: self.type_id,
            params: self.params@.map_values(|p: Param| p@),
            has_flags: self.has_flags,
            has_flags64: self.has_flags64,
            flags_name: self.flags_name@,
            flags64_name: self.flags64_name@,
            template_param: self.template_param@,
            template_var: self.template_var@,
            conditions: cond_views(self.conditions@),
            trivial_conditions: views(self.trivial_conditions@),
            is_template: self.is_template,
            has_template: self.has_template,
            nullable_params: views(self.nullable_params@),
            nullable_vectors: views(self.nullable_vectors@),
            bots_only_params: views(self.bots_only_params@),
        }
    }
}

impl View for TypeDef {
    type V = TypeDefModel;

    open spec fn view(&self) -> TypeDefModel {
        TypeDefModel {
            restype: self.restype@,
            boxed_name: self.boxed_name@,
            ctors: self.ctors@.map_values(|c: Constructor| c@),
            with_type: self.with_type,
            with_data: self.with_data,
            nullable: self.nullable,
        }
    }
}

// ---------------------------------------------------------------------------
// The ordered table (`indexmap::IndexMap`)
// ---------------------------------------------------------------------------

#[verifier::external_type_specification]
#[verifier::external_body]
#[verifier::reject_recursive_types(K)]
#[verifier::reject_recursive_types(V)]
#[verifier::reject_recursive_types(S)]
pub struct ExIndexMap<K, V, S>(IndexMap<K, V, S>);

/// The entries of a table, in order.
pub uninterp spec fn table_entries(m: IndexMap<String, TypeDef>) -> Seq<(String, TypeDef)>;

/// Model of a table: keys and values by their views, in order.
pub open spec fn table_view(m: IndexMap<String, TypeDef>) -> Seq<(Seq<char>, TypeDefModel)> {
    table_entries(m).map_values(|e: (String, TypeDef)| (e.0@, e.1@))
}

/// No two entries have keys with the same characters.
pub open spec fn keys_distinct(e: Seq<(String, TypeDef)>) -> bool {
    forall|i: int, j: int| 0 <= i < e.len() && 0 <= j < e.len() && i != j ==> e[i].0@ != e[j].0@
}

/// `IndexMap::new`: an empty table.
pub fn table_new() -> (m: IndexMap<String, TypeDef>)
    ensures
        table_entries(m) == Seq::<(String, TypeDef)>::empty(),
{
    new_index_map()
}

/// `IndexMap::new`: a table with no entries.
#[verifier::external_body]
fn new_index_map() -> (m: IndexMap<String, TypeDef>)
    ensures
        table_entries(m) == Seq::<(String, TypeDef)>::empty(),
{
    IndexMap::new()
}

/// `IndexMap::len`: the number of entries.
#[verifier::external_body]
pub(crate) fn table_len(m: &IndexMap<String, TypeDef>) -> (n: usize)
    ensures
        n == table_entries(*m).len(),
{
    m.len()
}

/// `IndexMap::get_index`: the key and value at position `i`, if any.
#[verifier::external_body]
pub(crate) fn table_get_index(m: &IndexMap<String, TypeDef>, i: usize) -> (r: Option<(&String, &TypeDef)>)
    ensures
        r is Some == (i < table_entries(*m).len()),
        r matches Some(p) ==> *p.0 == table_entries(*m)[i as int].0 && *p.1 == table_entries(*m)[i as int].1,
{
    m.get_index(i)
}

/// `IndexMap::get_index_of`: the position of the entry whose key equals
/// `key`, if any (keys of an `IndexMap` are unique, so no other entry has
/// that key).
#[verifier::external_body]
pub(crate) fn table_get_index_of(m: &IndexMap<String, TypeDef>, key: &str) -> (r: Option<usize>)
    ensures
        r matches Some(i) ==> i < table_entries(*m).len() && table_entries(*m)[i as int].0@ == key@
            && forall|j: int| 0 <= j < table_entries(*m).len() && j != i ==> table_entries(*m)[j].0@ != key@,
        r is None ==> forall|i: int| 0 <= i < table_entries(*m).len() ==> table_entries(*m)[i].0@ != key@,
{
    m.get_index_of(key)
}

/// `IndexMap::insert_full`: an existing equal key keeps its place and gets
/// the new value (the old one is returned); otherwise the pair is appended.
#[verifier::external_body]
pub(crate) fn table_insert_full(m: &mut IndexMap<String, TypeDef>, key: String, value: TypeDef) -> (r: (usize, Option<TypeDef>))
    ensures
        r.1 matches Some(old_v) ==> r.0 < table_entries(*old(m)).len()
            && table_entries(*old(m))[r.0 as int].0@ == key@
            && old_v == table_entries(*old(m))[r.0 as int].1
            && table_entries(*final(m)) == table_entries(*old(m)).update(r.0 as int, (table_entries(*old(m))[r.0 as int].0, value)),
        r.1 is None ==> r.0 == table_entries(*old(m)).len()
            && (forall|i: int| 0 <= i < table_entries(*old(m)).len() ==> table_entries(*old(m))[i].0@ != key@)
            && table_entries(*final(m)) == table_entries(*old(m)).push((key, value)),
{
    m.insert_full(key, value)
}

impl Default for Scheme {
    fn default() -> (r: Self)
        ensures
            r.layer == 0,
            r.input_names@.len() == 0,
            table_entries(r.types).len() == 0,
            table_entries(r.funcs).len() == 0,
            r.warnings@.len() == 0,
            r.enums@.len() == 0,
    {
        Scheme {
            layer: 0,
            input_names: Vec::new(),
            types: table_new(),
            funcs: table_new(),
            warnings: Vec::new(),
            enums: Vec::new(),
        }
    }
}

} // verus!
