//! `CodegenScheme`: the generator configuration (namespaces, prefixes,
//! primitive type names, builtin/skip/rename tables and optional outputs).
//!
//! Set-like tables are lists (membership is what matters); map-like tables
//! are lists of `(key, value)` pairs kept in their given order.

use vstd::prelude::*;
use crate::text::{views, contains_str, str_eq, pair_views};

verus! {

#[derive(Debug, Clone)]
pub struct Namespaces {
    pub global: String,
    pub creator: String,
}

#[derive(Debug, Clone)]
pub struct Prefixes {
    pub type_: String,
    pub data: String,
    pub id: String,
    pub construct: String,
}

#[derive(Debug, Clone)]
pub struct PrimitiveTypes {
    pub prime: String,
    pub type_id: String,
    pub buffer: String,
}

#[derive(Debug, Clone)]
pub struct DumpToText {
    pub header: String,
}

#[derive(Debug, Clone)]
pub struct Conversion {
    pub header: String,
    pub namespace: String,
    pub builtin_additional: Vec<String>,
    pub builtin_header_from: String,
    pub builtin_header_to: String,
}

/// Full codegen configuration.
#[derive(Debug, Clone)]
pub struct CodegenScheme {
    pub namespaces: Namespaces,
    pub prefixes: Prefixes,
    pub types: PrimitiveTypes,
    /// Output sections, e.g. `["read-write"]`.
    pub sections: Vec<String>,
    /// `(child, parent)`: child flag type must be a subset of the parent's.
    pub flag_inheritance: Vec<(String, String)>,
    /// `name#id` declarations whose provided id is trusted over the CRC.
    pub type_id_exceptions: Vec<String>,
    /// `(tl name, new name)`.
    pub renamed_types: Vec<(String, String)>,
    /// Exact lines to skip.
    pub skip: Vec<String>,
    pub builtin: Vec<String>,
    pub builtin_templates: Vec<String>,
    /// `(type, synonym used for the CRC)`, e.g. `("bytes", "string")`.
    pub synonyms: Vec<(String, String)>,
    pub builtin_header: String,
    pub nullable: Vec<String>,
    pub optimize_single_data: bool,
    pub dump_to_text: Option<DumpToText>,
    pub conversion: Option<Conversion>,
}

impl Default for Namespaces {
    fn default() -> (r: Self)
        ensures
            r.global@ == Seq::<char>::empty(),
            r.creator@ == Seq::<char>::empty(),
    {
        Namespaces { global: String::new(), creator: String::new() }
    }
}

impl Default for Prefixes {
    fn default() -> (r: Self)
        ensures
            r.type_@ == Seq::<char>::empty(),
            r.data@ == Seq::<char>::empty(),
            r.id@ == Seq::<char>::empty(),
            r.construct@ == Seq::<char>::empty(),
    {
        Prefixes { type_: String::new(), data: String::new(), id: String::new(), construct: String::new() }
    }
}

impl Default for PrimitiveTypes {
    fn default() -> (r: Self)
        ensures
            r.prime@ == Seq::<char>::empty(),
            r.type_id@ == Seq::<char>::empty(),
            r.buffer@ == Seq::<char>::empty(),
    {
        PrimitiveTypes { prime: String::new(), type_id: String::new(), buffer: String::new() }
    }
}

/// Every text field empty, every table empty, no optional output.
pub open spec fn is_empty_scheme(s: CodegenScheme) -> bool {
    &&& s.namespaces.global@.len() == 0
    &&& s.namespaces.creator@.len() == 0
    &&& s.prefixes.type_@.len() == 0
    &&& s.prefixes.data@.len() == 0
    &&& s.prefixes.id@.len() == 0
    &&& s.prefixes.construct@.len() == 0
    &&& s.types.prime@.len() == 0
    &&& s.types.type_id@.len() == 0
    &&& s.types.buffer@.len() == 0
    &&& s.sections@.len() == 0
    &&& s.flag_inheritance@.len() == 0
    &&& s.type_id_exceptions@.len() == 0
    &&& s.renamed_types@.len() == 0
    &&& s.skip@.len() == 0
    &&& s.builtin@.len() == 0
    &&& s.builtin_templates@.len() == 0
    &&& s.synonyms@.len() == 0
    &&& s.builtin_header@.len() == 0
    &&& s.nullable@.len() == 0
    &&& !s.optimize_single_data
    &&& s.dump_to_text is None
    &&& s.conversion is None
}

/// No key occurs twice among `(key, value)` pairs.
pub open spec fn keys_unique(p: Seq<(Seq<char>, Seq<char>)>) -> bool {
    forall|i: int, j: int| 0 <= i < j < p.len() ==> (#[trigger] p[i]).0 != (#[trigger] p[j]).0
}

/// No name occurs twice in a list used as a set.
pub open spec fn names_unique(s: Seq<Seq<char>>) -> bool {
    forall|i: int, j: int| 0 <= i < j < s.len() ==> #[trigger] s[i] != #[trigger] s[j]
}

/// The configuration's map-like tables have distinct keys and its set-like
/// tables distinct members.
pub open spec fn tables_distinct(s: CodegenScheme) -> bool {
    &&& keys_unique(pair_views(s.flag_inheritance@))
    &&& keys_unique(pair_views(s.renamed_types@))
    &&& keys_unique(pair_views(s.synonyms@))
    &&& names_unique(views(s.type_id_exceptions@))
    &&& names_unique(views(s.skip@))
    &&& names_unique(views(s.builtin@))
    &&& names_unique(views(s.builtin_templates@))
    &&& names_unique(views(s.nullable@))
}

/// The empty configuration has distinct tables.
pub proof fn law_empty_scheme_tables_distinct(s: CodegenScheme)
    requires
        is_empty_scheme(s),
    ensures
        tables_distinct(s),
{
}

/// Map insertion into a `(key, value)` table: an existing key keeps its
/// place and takes the new value; a new key is appended. Distinct keys stay
/// distinct.
pub fn insert_pair(table: &mut Vec<(String, String)>, key: String, value: String)
    ensures
        ({
            let old_p = pair_views(old(table)@);
            let new_p = pair_views(final(table)@);
            match old_p.map_values(|e: (Seq<char>, Seq<char>)| e.0).index_of_first(key@) {
                Some(i) => new_p == old_p.update(i, (key@, value@)),
                None => new_p == old_p.push((key@, value@)),
            }
        }),
        keys_unique(pair_views(old(table)@)) ==> keys_unique(pair_views(final(table)@)),
{
    let ghost old_p = pair_views(table@);
    let ghost ks = old_p.map_values(|e: (Seq<char>, Seq<char>)| e.0);
    let mut i: usize = 0;
    while i < table.len()
        invariant
            i <= table@.len(),
            table@ == old(table)@,
            old_p == pair_views(old(table)@),
            ks == old_p.map_values(|e: (Seq<char>, Seq<char>)| e.0),
            forall|j: int| 0 <= j < i ==> ks[j] != key@,
        decreases table.len() - i,
    {
        assert(ks[i as int] == table@[i as int].0@);
        if str_eq(table[i].0.as_str(), key.as_str()) {
            proof {
                ks.index_of_first_ensures(key@);
                assert(ks.index_of_first(key@) == Some(i as int));
            }
            table.set(i, (key, value));
            assert(pair_views(table@) =~= old_p.update(i as int, (key@, value@)));
            return;
        }
        i += 1;
    }
    proof {
        ks.index_of_first_ensures(key@);
        assert(!ks.contains(key@));
    }
    table.push((key, value));
    assert(pair_views(table@) =~= old_p.push((key@, value@)));
    proof {
        let np = pair_views(table@);
        assert forall|a: int, b: int| 0 <= a < b < np.len() && keys_unique(old_p) implies (#[trigger] np[a]).0 != (#[trigger] np[b]).0 by {
            if b == old_p.len() {
                assert(ks[a] == old_p[a].0);
            }
        }
    }
}

/// Set insertion into a list of names: appended only when absent. Distinct
/// members stay distinct.
pub fn insert_name(names: &mut Vec<String>, name: String)
    ensures
        views(final(names)@) == if views(old(names)@).contains(name@) {
            views(old(names)@)
        } else {
            views(old(names)@).push(name@)
        },
        names_unique(views(old(names)@)) ==> names_unique(views(final(names)@)),
{
    if !contains_str(names, name.as_str()) {
        let ghost o = views(names@);
        names.push(name);
        assert(views(names@) =~= o.push(name@));
    }
}

impl Default for CodegenScheme {
    /// The configuration an empty JSON object describes.
    fn default() -> (r: Self)
        ensures
            is_empty_scheme(r),
    {
        CodegenScheme {
            namespaces: Namespaces::default(),
            prefixes: Prefixes::default(),
            types: PrimitiveTypes::default(),
            sections: Vec::new(),
            flag_inheritance: Vec::new(),
            type_id_exceptions: Vec::new(),
            renamed_types: Vec::new(),
            skip: Vec::new(),
            builtin: Vec::new(),
            builtin_templates: Vec::new(),
            synonyms: Vec::new(),
            builtin_header: String::new(),
            nullable: Vec::new(),
            optimize_single_data: false,
            dump_to_text: None,
            conversion: None,
        }
    }
}

/// `creatorNamespaceFull`: `global::creator` when both are set, otherwise
/// their concatenation.
pub open spec fn spec_creator_namespace_full(global: Seq<char>, creator: Seq<char>) -> Seq<char> {
    if creator.len() > 0 && global.len() > 0 {
        global + "::"@ + creator
    } else {
        global + creator
    }
}

impl CodegenScheme {
    pub open spec fn spec_read_write_section(&self) -> bool {
        views(self.sections@).contains("read-write"@)
    }

    pub open spec fn spec_id_prefix(&self) -> Seq<char> {
        self.prefixes.id@ + "_"@
    }

    pub open spec fn spec_is_builtin_type(&self, name: Seq<char>) -> bool {
        views(self.builtin@).contains(name) || views(self.builtin_templates@).contains(name)
    }

    /// `'read-write'` is one of the sections.
    pub fn read_write_section(&self) -> (r: bool)
        ensures
            r == self.spec_read_write_section(),
    {
        contains_str(&self.sections, "read-write")
    }

    /// A conversion output is configured.
    pub fn write_conversion(&self) -> (r: bool)
        ensures
            r == (self.conversion is Some),
    {
        self.conversion.is_some()
    }

    /// A dump-to-text output is configured.
    pub fn write_serialization(&self) -> (r: bool)
        ensures
            r == (self.dump_to_text is Some),
    {
        self.dump_to_text.is_some()
    }

    /// The configuration asks for reader/writer or text-dump code but leaves
    /// the prime or buffer type empty: generation cannot go on.
    pub fn missing_required_types(&self) -> (r: bool)
        ensures
            r == ((self.types.prime@.len() == 0 || self.types.buffer@.len() == 0)
                && (self.spec_read_write_section() || self.dump_to_text is Some)),
    {
        proof {
            reveal_strlit("");
            assert(""@ =~= Seq::<char>::empty());
            if self.types.prime@.len() == 0 { assert(self.types.prime@ =~= ""@); }
            if self.types.buffer@.len() == 0 { assert(self.types.buffer@ =~= ""@); }
        }
        let empty_type = str_eq(self.types.prime.as_str(), "") || str_eq(self.types.buffer.as_str(), "");
        empty_type && (self.read_write_section() || self.write_serialization())
    }

    pub fn optimize_single_data(&self) -> (r: bool)
        ensures
            r == self.optimize_single_data,
    {
        self.optimize_single_data
    }

    /// The id prefix followed by `_`.
    pub fn id_prefix(&self) -> (r: String)
        ensures
            r@ == self.spec_id_prefix(),
    {
        let mut r = self.prefixes.id.clone();
        r.append("_");
        r
    }

    /// Global and creator namespaces joined by `::` (or concatenated when
    /// one of them is empty).
    pub fn creator_namespace_full(&self) -> (r: String)
        ensures
            r@ == spec_creator_namespace_full(self.namespaces.global@, self.namespaces.creator@),
    {
        let g = &self.namespaces.global;
        let c = &self.namespaces.creator;
        let mut r = g.clone();
        if c.unicode_len() > 0 && g.unicode_len() > 0 {
            r.append("::");
        }
        r.append(c.as_str());
        r
    }

    /// `name` is a builtin type or a builtin template.
    pub fn is_builtin_type(&self, name: &str) -> (r: bool)
        ensures
            r == self.spec_is_builtin_type(name@),
    {
        contains_str(&self.builtin, name) || contains_str(&self.builtin_templates, name)
    }
}

} // verus!
