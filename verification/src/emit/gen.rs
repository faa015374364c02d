//! The shared generation pass behind `scheme.h`: one walk over the parsed
//! scheme fills a set of text accumulators (RPC method classes, type
//! classes, data classes, creators, readers/writers, visitors, forward
//! declarations and flag cast operators), which the header emitter then
//! assembles in a fixed order.
//!
//! Every accumulator is specified exactly: `spec_generate` states the text
//! that each of them holds after the pass, piece by piece.

use vstd::prelude::*;
use crate::config::{CodegenScheme, spec_creator_namespace_full};
use crate::emit::{
    field_decl, field_decl_exec, full_data, full_type, getter_decl, getter_texts, has_cond,
    is_cond, is_stored, is_stored_exec, optional_vector_text, param_arg, param_arg_exec,
    param_init, param_init_exec, stored_of,
};

use crate::ir::{
    Constructor, CtorModel, ParamModel, Scheme, SchemeModel, TypeDef, TypeDefModel, cond_views,
    table_entries, table_get_index, table_len, table_view,
};
use crate::parser::{scheme_view, upper_first_exec};
use crate::parse::upper_first;
use crate::emit::gen_types::{lemma_types_fold_keeps_flag_operators, types_fold, types_ok, types_ok_exec, types_pass};
use crate::resolve::{spec_full_data_name, spec_full_type_name};
use crate::text::{
    chars_of, contains_str, dec, dec_string, join, join_exec, pair_views, slice_copy, str_eq,
    string_of, views,
};

verus! {

// ---------------------------------------------------------------------------
// Association lists (the flag tables)
// ---------------------------------------------------------------------------

/// Position of the first key equal to `k`.
pub open spec fn first_pos(keys: Seq<Seq<char>>, k: Seq<char>) -> Option<int>
    decreases keys.len(),
{
    if keys.len() == 0 {
        None
    } else {
        match first_pos(keys.drop_last(), k) {
            Some(i) => Some(i),
            None => if keys.last() == k { Some(keys.len() - 1) } else { None },
        }
    }
}

pub proof fn lemma_first_pos(keys: Seq<Seq<char>>, k: Seq<char>)
    ensures
        match first_pos(keys, k) {
            Some(i) => 0 <= i < keys.len() && keys[i] == k
                && forall|j: int| 0 <= j < i ==> keys[j] != k,
            None => forall|j: int| 0 <= j < keys.len() ==> keys[j] != k,
        },
    decreases keys.len(),
{
    if keys.len() > 0 {
        lemma_first_pos(keys.drop_last(), k);
        assert forall|j: int| 0 <= j < keys.len() - 1 implies keys.drop_last()[j] == keys[j] by {}
    }
}

pub open spec fn keys_of<V>(m: Seq<(Seq<char>, V)>) -> Seq<Seq<char>> {
    m.map_values(|e: (Seq<char>, V)| e.0)
}

/// Map insert: the value of an existing key is replaced in place,
/// otherwise the pair is appended.
pub open spec fn assoc_put<V>(m: Seq<(Seq<char>, V)>, k: Seq<char>, v: V) -> Seq<(Seq<char>, V)> {
    match first_pos(keys_of(m), k) {
        Some(i) => m.update(i, (k, v)),
        None => m.push((k, v)),
    }
}

/// Value of `k`, or `d` when absent.
pub open spec fn assoc_get_or<V>(m: Seq<(Seq<char>, V)>, k: Seq<char>, d: V) -> V {
    match first_pos(keys_of(m), k) {
        Some(i) => m[i].1,
        None => d,
    }
}

/// `parent.entry(k).or_insert(v)` for every `(k, v)` of `child`, in order.
pub open spec fn merge_missing(parent: Seq<(Seq<char>, u32)>, child: Seq<(Seq<char>, u32)>) -> Seq<(Seq<char>, u32)>
    decreases child.len(),
{
    if child.len() == 0 {
        parent
    } else {
        let acc = merge_missing(parent, child.drop_last());
        if first_pos(keys_of(acc), child.last().0) is Some {
            acc
        } else {
            acc.push(child.last())
        }
    }
}

proof fn lemma_first_pos_some(keys: Seq<Seq<char>>, k: Seq<char>, j: int)
    requires
        0 <= j < keys.len(),
        keys[j] == k,
    ensures
        first_pos(keys, k) is Some,
{
    lemma_first_pos(keys, k);
}

/// Merging a child's flag table into a parent's keeps every parent entry in
/// place and leaves every flag of the child present.
pub proof fn law_merge_keeps_parent_covers_child(parent: Seq<(Seq<char>, u32)>, child: Seq<(Seq<char>, u32)>)
    ensures
        merge_missing(parent, child).len() >= parent.len(),
        forall|i: int| 0 <= i < parent.len() ==> #[trigger] merge_missing(parent, child)[i] == parent[i],
        forall|i: int| 0 <= i < child.len() ==> first_pos(keys_of(merge_missing(parent, child)), (#[trigger] child[i]).0) is Some,
    decreases child.len(),
{
    if child.len() > 0 {
        let d = child.drop_last();
        law_merge_keeps_parent_covers_child(parent, d);
        let acc = merge_missing(parent, d);
        let r = merge_missing(parent, child);
        assert forall|i: int| 0 <= i < child.len() implies first_pos(keys_of(r), (#[trigger] child[i]).0) is Some by {
            let k = child[i].0;
            if i < child.len() - 1 {
                assert(d[i] == child[i]);
                lemma_first_pos(keys_of(acc), k);
                let p = first_pos(keys_of(acc), k)->0;
                assert(keys_of(acc)[p] == k);
                assert(r[p] == acc[p]);
                lemma_first_pos_some(keys_of(r), k, p);
            } else {
                if first_pos(keys_of(acc), k) is Some {
                    lemma_first_pos(keys_of(acc), k);
                    let p = first_pos(keys_of(acc), k)->0;
                    lemma_first_pos_some(keys_of(r), k, p);
                } else {
                    assert(r == acc.push(child.last()));
                    lemma_first_pos_some(keys_of(r), k, acc.len() as int);
                }
            }
        }
    }
}

/// Reading a key back after putting it gives the value put.
pub proof fn law_assoc_put_get<V>(m: Seq<(Seq<char>, V)>, k: Seq<char>, v: V, d: V)
    ensures
        assoc_get_or(assoc_put(m, k, v), k, d) == v,
{
    let keys = keys_of(m);
    lemma_first_pos(keys, k);
    let r = assoc_put(m, k, v);
    lemma_first_pos(keys_of(r), k);
    match first_pos(keys, k) {
        Some(i) => {
            assert(keys_of(r) =~= keys.update(i, k));
            match first_pos(keys_of(r), k) {
                Some(p) => {
                    if p < i {
                        assert(keys[p] == keys_of(r)[p]);
                    }
                    if p > i {
                        assert(keys_of(r)[i] == k);
                    }
                },
                None => {
                    assert(keys_of(r)[i] == k);
                },
            }
        },
        None => {
            assert(keys_of(r) =~= keys.push(k));
            match first_pos(keys_of(r), k) {
                Some(p) => {
                    if p < keys.len() {
                        assert(keys[p] == keys_of(r)[p]);
                    }
                },
                None => {
                    assert(keys_of(r)[keys.len() as int] == k);
                },
            }
        },
    }
}

/// Position of the first entry whose key equals `k`.
fn find_key<V>(m: &Vec<(String, V)>, k: &str) -> (r: Option<usize>)
    ensures
        r matches Some(i) ==> i < m@.len() && first_pos(m@.map_values(|e: (String, V)| e.0@), k@) == Some(i as int),
        r is None ==> first_pos(m@.map_values(|e: (String, V)| e.0@), k@) is None,
{
    let ghost keys = m@.map_values(|e: (String, V)| e.0@);
    let mut i: usize = 0;
    while i < m.len()
        invariant
            i <= m@.len(),
            keys == m@.map_values(|e: (String, V)| e.0@),
            forall|j: int| 0 <= j < i ==> keys[j] != k@,
        decreases m.len() - i,
    {
        assert(keys[i as int] == m@[i as int].0@);
        if str_eq(m[i].0.as_str(), k) {
            proof { lemma_first_pos(keys, k@); }
            return Some(i);
        }
        i += 1;
    }
    proof { lemma_first_pos(keys, k@); }
    None
}

/// The views of the per-class flag tables.
pub open spec fn flag_maps_view(v: Seq<(String, Vec<(String, u32)>)>) -> Seq<(Seq<char>, Seq<(Seq<char>, u32)>)> {
    v.map_values(|e: (String, Vec<(String, u32)>)| (e.0@, cond_views(e.1@)))
}

fn copy_bits(v: &Vec<(String, u32)>) -> (r: Vec<(String, u32)>)
    ensures
        cond_views(r@) == cond_views(v@),
{
    let mut r: Vec<(String, u32)> = Vec::new();
    let mut i: usize = 0;
    while i < v.len()
        invariant
            i <= v@.len(),
            cond_views(r@) == cond_views(v@).take(i as int),
        decreases v.len() - i,
    {
        let ghost o = r@;
        r.push((v[i].0.clone(), v[i].1));
        assert(cond_views(r@) =~= cond_views(o).push((v@[i as int].0@, v@[i as int].1)));
        assert(cond_views(v@).take(i + 1) =~= cond_views(v@).take(i as int).push((v@[i as int].0@, v@[i as int].1)));
        i += 1;
    }
    assert(cond_views(v@).take(v@.len() as int) =~= cond_views(v@));
    r
}

fn put_bit(m: &mut Vec<(String, u32)>, k: String, v: u32)
    ensures
        cond_views(final(m)@) == assoc_put(cond_views(old(m)@), k@, v),
{
    assert(keys_of(cond_views(m@)) =~= m@.map_values(|e: (String, u32)| e.0@));
    let ghost kv = k@;
    match find_key(m, k.as_str()) {
        Some(i) => {
            m.set(i, (k, v));
            assert(cond_views(m@) =~= cond_views(old(m)@).update(i as int, (kv, v)));
        },
        None => {
            m.push((k, v));
            assert(cond_views(m@) =~= cond_views(old(m)@).push((kv, v)));
        },
    }
}

pub(crate) fn put_map(m: &mut Vec<(String, Vec<(String, u32)>)>, k: String, v: Vec<(String, u32)>)
    ensures
        flag_maps_view(final(m)@) == assoc_put(flag_maps_view(old(m)@), k@, cond_views(v@)),
{
    assert(keys_of(flag_maps_view(m@)) =~= m@.map_values(|e: (String, Vec<(String, u32)>)| e.0@));
    let ghost kv = k@;
    let ghost vv = cond_views(v@);
    match find_key(m, k.as_str()) {
        Some(i) => {
            m.set(i, (k, v));
            assert(flag_maps_view(m@) =~= flag_maps_view(old(m)@).update(i as int, (kv, vv)));
        },
        None => {
            m.push((k, v));
            assert(flag_maps_view(m@) =~= flag_maps_view(old(m)@).push((kv, vv)));
        },
    }
}

/// The flag table of one class, or an empty one.
fn get_map(m: &Vec<(String, Vec<(String, u32)>)>, k: &str) -> (r: Vec<(String, u32)>)
    ensures
        cond_views(r@) == assoc_get_or(flag_maps_view(m@), k@, Seq::<(Seq<char>, u32)>::empty()),
{
    assert(keys_of(flag_maps_view(m@)) =~= m@.map_values(|e: (String, Vec<(String, u32)>)| e.0@));
    match find_key(m, k) {
        Some(i) => {
            assert(flag_maps_view(m@)[i as int].1 == cond_views(m@[i as int].1@));
            copy_bits(&m[i].1)
        },
        None => {
            let r: Vec<(String, u32)> = Vec::new();
            assert(cond_views(r@) =~= Seq::<(Seq<char>, u32)>::empty());
            r
        },
    }
}

fn merge_missing_exec(parent: &mut Vec<(String, u32)>, child: &Vec<(String, u32)>)
    ensures
        cond_views(final(parent)@) == merge_missing(cond_views(old(parent)@), cond_views(child@)),
{
    let ghost p0 = cond_views(parent@);
    let ghost cv = cond_views(child@);
    let mut i: usize = 0;
    while i < child.len()
        invariant
            i <= child@.len(),
            cv == cond_views(child@),
            cond_views(parent@) == merge_missing(p0, cv.take(i as int)),
        decreases child.len() - i,
    {
        assert(cv.take(i + 1).drop_last() =~= cv.take(i as int));
        assert(cv.take(i + 1).last() == (child@[i as int].0@, child@[i as int].1));
        assert(keys_of(cond_views(parent@)) =~= parent@.map_values(|e: (String, u32)| e.0@));
        if find_key(parent, child[i].0.as_str()).is_none() {
            let ghost o = parent@;
            parent.push((child[i].0.clone(), child[i].1));
            assert(cond_views(parent@) =~= cond_views(o).push((child@[i as int].0@, child@[i as int].1)));
        }
        i += 1;
    }
    assert(cv.take(child@.len() as int) =~= cv);
}

// ---------------------------------------------------------------------------
// The accumulators
// ---------------------------------------------------------------------------

/// All text accumulators of one generation pass, plus each flag-carrying
/// class with its `(flag, bit)` table.
#[derive(Debug)]
pub struct Generated {
    pub funcs_text: String,
    pub types_text: String,
    pub data_texts: String,
    pub creator_proxy_text: String,
    pub factories: String,
    pub flag_operators: String,
    pub methods: String,
    pub inline_methods: String,
    pub visitor_methods: String,
    pub forwards: String,
    pub forw_typedefs: String,
    /// Class name -> `(flag, bit)` table, in first-seen order.
    pub parent_flags_check: Vec<(String, Vec<(String, u32)>)>,
}

#[verifier::ext_equal]
pub struct GenModel {
    pub funcs_text: Seq<char>,
    pub types_text: Seq<char>,
    pub data_texts: Seq<char>,
    pub creator_proxy_text: Seq<char>,
    pub factories: Seq<char>,
    pub flag_operators: Seq<char>,
    pub methods: Seq<char>,
    pub inline_methods: Seq<char>,
    pub visitor_methods: Seq<char>,
    pub forwards: Seq<char>,
    pub forw_typedefs: Seq<char>,
    pub parent_flags_check: Seq<(Seq<char>, Seq<(Seq<char>, u32)>)>,
}

impl View for Generated {
    type V = GenModel;

    open spec fn view(&self) -> GenModel {
        GenModel {
            funcs_text: self.funcs_text@,
            types_text: self.types_text@,
            data_texts: self.data_texts@,
            creator_proxy_text: self.creator_proxy_text@,
            factories: self.factories@,
            flag_operators: self.flag_operators@,
            methods: self.methods@,
            inline_methods: self.inline_methods@,
            visitor_methods: self.visitor_methods@,
            forwards: self.forwards@,
            forw_typedefs: self.forw_typedefs@,
            parent_flags_check: flag_maps_view(self.parent_flags_check@),
        }
    }
}

pub open spec fn gen_empty() -> GenModel {
    GenModel {
        funcs_text: Seq::empty(),
        types_text: Seq::empty(),
        data_texts: Seq::empty(),
        creator_proxy_text: Seq::empty(),
        factories: Seq::empty(),
        flag_operators: Seq::empty(),
        methods: Seq::empty(),
        inline_methods: Seq::empty(),
        visitor_methods: Seq::empty(),
        forwards: Seq::empty(),
        forw_typedefs: Seq::empty(),
        parent_flags_check: Seq::empty(),
    }
}

impl Default for Generated {
    fn default() -> (g: Self)
        ensures
            g@ == gen_empty(),
    {
        let g = Generated {
            funcs_text: String::new(),
            types_text: String::new(),
            data_texts: String::new(),
            creator_proxy_text: String::new(),
            factories: String::new(),
            flag_operators: String::new(),
            methods: String::new(),
            inline_methods: String::new(),
            visitor_methods: String::new(),
            forwards: String::new(),
            forw_typedefs: String::new(),
            parent_flags_check: Vec::new(),
        };
        assert(g@ =~= gen_empty());
        g
    }
}

// ---------------------------------------------------------------------------
// Configuration words
// ---------------------------------------------------------------------------

pub open spec fn idp(cfg: CodegenScheme) -> Seq<char> {
    cfg.spec_id_prefix()
}

pub open spec fn tit(cfg: CodegenScheme) -> Seq<char> {
    cfg.types.type_id@
}

// ---------------------------------------------------------------------------
// Flags enum
// ---------------------------------------------------------------------------

/// `\t\tf_<name> = (<one> << <bit>),` per condition.
pub open spec fn flag_lines(conds: Seq<(Seq<char>, u32)>, one: Seq<char>) -> Seq<char>
    decreases conds.len(),
{
    if conds.len() == 0 {
        Seq::empty()
    } else {
        flag_lines(conds.drop_last(), one) + "\t\tf_"@ + conds.last().0 + " = ("@ + one + " << "@
            + dec(conds.last().1) + "),\n"@
    }
}

/// Largest bit of the conditions (0 when there are none).
pub open spec fn max_bit(conds: Seq<(Seq<char>, u32)>) -> u32
    decreases conds.len(),
{
    if conds.len() == 0 {
        0
    } else {
        let m = max_bit(conds.drop_last());
        if conds.last().1 > m { conds.last().1 } else { m }
    }
}

/// The `(flag, bit)` table recorded for a class with flags.
pub open spec fn flag_check(conds: Seq<(Seq<char>, u32)>) -> Seq<(Seq<char>, u32)>
    decreases conds.len(),
{
    if conds.len() == 0 {
        Seq::empty()
    } else {
        assoc_put(flag_check(conds.drop_last()), conds.last().0, conds.last().1)
    }
}

/// The `enum class Flag` block with its `Flags` alias.
pub open spec fn flags_enum_text(conds: Seq<(Seq<char>, u32)>, has_flags64: bool) -> Seq<char> {
    let ft = if has_flags64 { "uint64"@ } else { "uint32"@ };
    let one = if has_flags64 { "1ULL"@ } else { "1U"@ };
    let t = "\tenum class Flag : "@ + ft + " {\n"@ + flag_lines(conds, one);
    let t = if max_bit(conds) > 0 { t + "\n"@ } else { t };
    t + "\t\tMAX_FIELD = ("@ + one + " << "@ + dec(max_bit(conds)) + "),\n"@ + "\t};\n"@
        + "\tusing Flags = base::flags<Flag>;\n"@
        + "\tfriend inline constexpr bool is_flag_type(Flag) { return true; };\n"@ + "\n"@
}

pub fn flags_enum(c: &Constructor, has_flags64: bool) -> (r: (String, Vec<(String, u32)>))
    ensures
        r.0@ == flags_enum_text(c@.conditions, has_flags64),
        cond_views(r.1@) == flag_check(c@.conditions),
{
    let ft = if has_flags64 { "uint64" } else { "uint32" };
    let one = if has_flags64 { "1ULL" } else { "1U" };
    let mut t = String::from_str("\tenum class Flag : ");
    t.append(ft);
    t.append(" {\n");
    let ghost t0 = t@;
    let ghost conds = c@.conditions;
    let mut check: Vec<(String, u32)> = Vec::new();
    let mut maxbit: u32 = 0;
    let mut i: usize = 0;
    while i < c.conditions.len()
        invariant
            i <= c.conditions@.len(),
            conds == c@.conditions,
            conds.len() == c.conditions@.len(),
            one@ == (if has_flags64 { "1ULL"@ } else { "1U"@ }),
            t@ == t0 + flag_lines(conds.take(i as int), one@),
            maxbit == max_bit(conds.take(i as int)),
            cond_views(check@) == flag_check(conds.take(i as int)),
        decreases c.conditions.len() - i,
    {
        assert(conds.take(i + 1).drop_last() =~= conds.take(i as int));
        assert(conds.take(i + 1).last() == (c.conditions@[i as int].0@, c.conditions@[i as int].1));
        let name = &c.conditions[i].0;
        let bit = c.conditions[i].1;
        t.append("\t\tf_");
        t.append(name.as_str());
        t.append(" = (");
        t.append(one);
        t.append(" << ");
        let b = dec_string(bit);
        t.append(b.as_str());
        t.append("),\n");
        put_bit(&mut check, name.clone(), bit);
        if bit > maxbit {
            maxbit = bit;
        }
        i += 1;
    }
    assert(conds.take(conds.len() as int) =~= conds);
    if maxbit > 0 {
        t.append("\n");
    }
    t.append("\t\tMAX_FIELD = (");
    t.append(one);
    t.append(" << ");
    let mb = dec_string(maxbit);
    t.append(mb.as_str());
    t.append("),\n");
    t.append("\t};\n");
    t.append("\tusing Flags = base::flags<Flag>;\n");
    t.append("\tfriend inline constexpr bool is_flag_type(Flag) { return true; };\n");
    t.append("\n");
    (t, check)
}

// ---------------------------------------------------------------------------
// Per-parameter folds
// ---------------------------------------------------------------------------

/// Parameter type as stored: the template query parameter keeps its raw
/// name where `tmpl_aware`, every other type gets the type prefix.
pub open spec fn ptf_of(cfg: CodegenScheme, c: CtorModel, p: ParamModel, tmpl_aware: bool) -> Seq<char> {
    if tmpl_aware && p.name == c.template_param { p.tl_type } else { spec_full_type_name(cfg, p.tl_type) }
}

fn ptf_exec(config: &CodegenScheme, c: &Constructor, i: usize, tmpl_aware: bool) -> (r: String)
    requires
        i < c.params@.len(),
    ensures
        r@ == ptf_of(*config, c@, c@.params[i as int], tmpl_aware),
{
    assert(c@.params[i as int] == c.params@[i as int]@);
    if tmpl_aware && str_eq(c.params[i].name.as_str(), c.template_param.as_str()) {
        c.params[i].tl_type.clone()
    } else {
        full_type(config, c.params[i].tl_type.as_str())
    }
}

/// Constructor arguments of the stored parameters.
pub open spec fn args_of(cfg: CodegenScheme, c: CtorModel, ps: Seq<ParamModel>, tmpl_aware: bool) -> Seq<Seq<char>> {
    stored_of(c, ps).map_values(|p: ParamModel| param_arg(c, p.name, p.tl_type, ptf_of(cfg, c, p, tmpl_aware)))
}

/// Member initializers of the stored parameters.
pub open spec fn inits_of(c: CtorModel, ps: Seq<ParamModel>) -> Seq<Seq<char>> {
    stored_of(c, ps).map_values(|p: ParamModel| param_init(p.name))
}

/// Private field declarations of the stored parameters.
pub open spec fn fields_of(cfg: CodegenScheme, c: CtorModel, ps: Seq<ParamModel>, tmpl_aware: bool) -> Seq<char>
    decreases ps.len(),
{
    if ps.len() == 0 {
        Seq::empty()
    } else if is_stored(c, ps.last().name) {
        fields_of(cfg, c, ps.drop_last(), tmpl_aware) + field_decl(c, ps.last().name, ptf_of(cfg, c, ps.last(), tmpl_aware))
    } else {
        fields_of(cfg, c, ps.drop_last(), tmpl_aware)
    }
}

/// Getter declarations and definitions of the stored parameters of `owner`.
pub open spec fn getters_of(cfg: CodegenScheme, owner: Seq<char>, c: CtorModel, ps: Seq<ParamModel>) -> (Seq<char>, Seq<char>)
    decreases ps.len(),
{
    if ps.len() == 0 {
        (Seq::empty(), Seq::empty())
    } else {
        let r = getters_of(cfg, owner, c, ps.drop_last());
        let p = ps.last();
        if is_stored(c, p.name) {
            let t = getter_texts(owner, p.name, spec_full_type_name(cfg, p.tl_type),
                has_cond(c.conditions, p.name), c.nullable_vectors.contains(p.name),
                c.nullable_params.contains(p.name), c.flags_name);
            (r.0 + t.0, r.1 + t.1)
        } else {
            r
        }
    }
}

pub proof fn lemma_stored_of_len(c: CtorModel, ps: Seq<ParamModel>)
    ensures
        stored_of(c, ps).len() <= ps.len(),
    decreases ps.len(),
{
    if ps.len() > 0 {
        lemma_stored_of_len(c, ps.drop_last());
    }
}

/// Arguments and initializers of the stored parameters.
pub fn args_exec(config: &CodegenScheme, c: &Constructor, tmpl_aware: bool) -> (r: (Vec<String>, Vec<String>))
    ensures
        views(r.0@) == args_of(*config, c@, c@.params, tmpl_aware),
        views(r.1@) == inits_of(c@, c@.params),
        r.0@.len() == stored_of(c@, c@.params).len(),
{
    let ghost ps = c@.params;
    let mut a: Vec<String> = Vec::new();
    let mut n: Vec<String> = Vec::new();
    let mut i: usize = 0;
    while i < c.params.len()
        invariant
            i <= c.params@.len(),
            ps == c@.params,
            ps.len() == c.params@.len(),
            views(a@) == args_of(*config, c@, ps.take(i as int), tmpl_aware),
            views(n@) == inits_of(c@, ps.take(i as int)),
        decreases c.params.len() - i,
    {
        assert(ps.take(i + 1).drop_last() =~= ps.take(i as int));
        assert(ps.take(i + 1).last() == c.params@[i as int]@);
        let p = &c.params[i];
        if is_stored_exec(c, p.name.as_str()) {
            let ptf = ptf_exec(config, c, i, tmpl_aware);
            let s = param_arg_exec(c, p.name.as_str(), p.tl_type.as_str(), ptf.as_str());
            let m = param_init_exec(p.name.as_str());
            let ghost oa = a@;
            let ghost on = n@;
            a.push(s);
            n.push(m);
            assert(views(a@) =~= views(oa).push(s@));
            assert(views(n@) =~= views(on).push(m@));
            assert(args_of(*config, c@, ps.take(i + 1), tmpl_aware) =~= args_of(*config, c@, ps.take(i as int), tmpl_aware).push(s@));
            assert(inits_of(c@, ps.take(i + 1)) =~= inits_of(c@, ps.take(i as int)).push(m@));
        } else {
            assert(args_of(*config, c@, ps.take(i + 1), tmpl_aware) =~= args_of(*config, c@, ps.take(i as int), tmpl_aware));
            assert(inits_of(c@, ps.take(i + 1)) =~= inits_of(c@, ps.take(i as int)));
        }
        i += 1;
    }
    assert(ps.take(ps.len() as int) =~= ps);
    (a, n)
}

pub fn fields_exec(config: &CodegenScheme, c: &Constructor, tmpl_aware: bool) -> (r: String)
    ensures
        r@ == fields_of(*config, c@, c@.params, tmpl_aware),
{
    let ghost ps = c@.params;
    let mut t = String::new();
    let mut i: usize = 0;
    while i < c.params.len()
        invariant
            i <= c.params@.len(),
            ps == c@.params,
            ps.len() == c.params@.len(),
            t@ == fields_of(*config, c@, ps.take(i as int), tmpl_aware),
        decreases c.params.len() - i,
    {
        assert(ps.take(i + 1).drop_last() =~= ps.take(i as int));
        assert(ps.take(i + 1).last() == c.params@[i as int]@);
        let p = &c.params[i];
        if is_stored_exec(c, p.name.as_str()) {
            let ptf = ptf_exec(config, c, i, tmpl_aware);
            let f = field_decl_exec(c, p.name.as_str(), ptf.as_str());
            t.append(f.as_str());
        }
        i += 1;
    }
    assert(ps.take(ps.len() as int) =~= ps);
    t
}

pub fn getters_exec(config: &CodegenScheme, owner: &str, c: &Constructor) -> (r: (String, String))
    ensures
        (r.0@, r.1@) == getters_of(*config, owner@, c@, c@.params),
{
    let ghost ps = c@.params;
    let mut d = String::new();
    let mut b = String::new();
    let mut i: usize = 0;
    while i < c.params.len()
        invariant
            i <= c.params@.len(),
            ps == c@.params,
            ps.len() == c.params@.len(),
            (d@, b@) == getters_of(*config, owner@, c@, ps.take(i as int)),
        decreases c.params.len() - i,
    {
        assert(ps.take(i + 1).drop_last() =~= ps.take(i as int));
        assert(ps.take(i + 1).last() == c.params@[i as int]@);
        let p = &c.params[i];
        if is_stored_exec(c, p.name.as_str()) {
            let ptf = full_type(config, p.tl_type.as_str());
            let cond = is_cond(c, p.name.as_str());
            let nv = contains_str(&c.nullable_vectors, p.name.as_str());
            let np = contains_str(&c.nullable_params, p.name.as_str());
            let (gd, gb) = getter_decl(owner, p.name.as_str(), ptf.as_str(), cond, nv, np, c.flags_name.as_str());
            d.append(gd.as_str());
            b.append(gb.as_str());
        }
        i += 1;
    }
    assert(ps.take(ps.len() as int) =~= ps);
    (d, b)
}

/// `"\treturn" + text[4..len-1] + ";\n"` for `\t\t&& ...` chains, or
/// `\treturn true;` when there is nothing to chain.
pub open spec fn return_chain(t: Seq<char>) -> Seq<char> {
    if t.len() > 0 { "\treturn"@ + t.subrange(4, t.len() - 1) + ";\n"@ } else { "\treturn true;\n"@ }
}

pub fn return_chain_exec(t: &String) -> (r: String)
    requires
        t@.len() == 0 || t@.len() >= 5,
    ensures
        r@ == return_chain(t@),
{
    let v = chars_of(t.as_str());
    if v.len() > 0 {
        let mid = slice_copy(&v, 4, v.len() - 1);
        let m = string_of(&mid);
        let mut r = String::from_str("\treturn");
        r.append(m.as_str());
        r.append(";\n");
        r
    } else {
        String::from_str("\treturn true;\n")
    }
}

// ---------------------------------------------------------------------------
// RPC methods
// ---------------------------------------------------------------------------

/// Read chain of an RPC method over all its parameters.
pub open spec fn func_read_lines(cfg: CodegenScheme, c: CtorModel, ps: Seq<ParamModel>) -> Seq<char>
    decreases ps.len(),
{
    if ps.len() == 0 {
        Seq::empty()
    } else {
        let rest = func_read_lines(cfg, c, ps.drop_last());
        let k = ps.last().name;
        if has_cond(c.conditions, k) {
            if c.trivial_conditions.contains(k) {
                rest
            } else {
                rest + "\t\t&& "@ + "((_"@ + c.flags_name + ".v & Flag::f_"@ + k + ") ? _"@ + k
                    + ".read(from, end) : ((_"@ + k + " = "@ + spec_full_type_name(cfg, ps.last().tl_type)
                    + "()), true))\n"@
            }
        } else {
            rest + "\t\t&& "@ + "_"@ + k + ".read(from, end)\n"@
        }
    }
}

/// Write statements of an RPC method over all its parameters.
pub open spec fn func_write_lines(c: CtorModel, ps: Seq<ParamModel>) -> Seq<char>
    decreases ps.len(),
{
    if ps.len() == 0 {
        Seq::empty()
    } else {
        let rest = func_write_lines(c, ps.drop_last());
        let k = ps.last().name;
        if has_cond(c.conditions, k) {
            if c.trivial_conditions.contains(k) {
                rest
            } else {
                rest + "\tif (_"@ + c.flags_name + ".v & Flag::f_"@ + k + ") _"@ + k + ".write(to);\n"@
            }
        } else {
            rest + "\t_"@ + k + ".write(to);\n"@
        }
    }
}

/// An RPC method writes a conditional parameter that is not a `true` flag
/// only under its flag: for every such parameter `k`, the write statements
/// hold `if (_<flags>.v & Flag::f_<k>) _<k>.write(to);`.
pub proof fn law_func_write_guards_optional_fields(c: CtorModel, ps: Seq<ParamModel>, j: int)
    requires
        0 <= j < ps.len(),
        has_cond(c.conditions, ps[j].name),
        !c.trivial_conditions.contains(ps[j].name),
    ensures
        crate::text::contains(
            func_write_lines(c, ps),
            "\tif (_"@ + c.flags_name + ".v & Flag::f_"@ + ps[j].name + ") _"@ + ps[j].name + ".write(to);\n"@,
        ),
    decreases ps.len(),
{
    let k = ps[j].name;
    let line = "\tif (_"@ + c.flags_name + ".v & Flag::f_"@ + k + ") _"@ + k + ".write(to);\n"@;
    let rest = func_write_lines(c, ps.drop_last());
    let kl = ps.last().name;
    let piece = if has_cond(c.conditions, kl) {
        if c.trivial_conditions.contains(kl) {
            Seq::<char>::empty()
        } else {
            "\tif (_"@ + c.flags_name + ".v & Flag::f_"@ + kl + ") _"@ + kl + ".write(to);\n"@
        }
    } else {
        "\t_"@ + kl + ".write(to);\n"@
    };
    assert(func_write_lines(c, ps) =~= rest + piece);
    if j == ps.len() - 1 {
        assert(piece =~= line);
        crate::text::lemma_contains_suffix(rest, line);
    } else {
        assert(ps.drop_last()[j] == ps[j]);
        law_func_write_guards_optional_fields(c, ps.drop_last(), j);
        crate::text::lemma_contains_extend(rest, piece, line);
    }
}

pub proof fn lemma_chain_len(cfg: CodegenScheme, c: CtorModel, ps: Seq<ParamModel>)
    ensures
        func_read_lines(cfg, c, ps).len() == 0 || func_read_lines(cfg, c, ps).len() >= 5,
    decreases ps.len(),
{
    reveal_strlit("\t\t&& ");
    if ps.len() > 0 {
        lemma_chain_len(cfg, c, ps.drop_last());
    }
}

fn func_read_write_lines(config: &CodegenScheme, c: &Constructor) -> (r: (String, String))
    ensures
        r.0@ == func_read_lines(*config, c@, c@.params),
        r.1@ == func_write_lines(c@, c@.params),
{
    let ghost ps = c@.params;
    let mut rd = String::new();
    let mut wr = String::new();
    let mut i: usize = 0;
    while i < c.params.len()
        invariant
            i <= c.params@.len(),
            ps == c@.params,
            ps.len() == c.params@.len(),
            rd@ == func_read_lines(*config, c@, ps.take(i as int)),
            wr@ == func_write_lines(c@, ps.take(i as int)),
        decreases c.params.len() - i,
    {
        assert(ps.take(i + 1).drop_last() =~= ps.take(i as int));
        assert(ps.take(i + 1).last() == c.params@[i as int]@);
        let k = c.params[i].name.as_str();
        if is_cond(c, k) {
            if !contains_str(&c.trivial_conditions, k) {
                let v = full_type(config, c.params[i].tl_type.as_str());
                rd.append("\t\t&& ");
                rd.append("((_");
                rd.append(c.flags_name.as_str());
                rd.append(".v & Flag::f_");
                rd.append(k);
                rd.append(") ? _");
                rd.append(k);
                rd.append(".read(from, end) : ((_");
                rd.append(k);
                rd.append(" = ");
                rd.append(v.as_str());
                rd.append("()), true))\n");
                wr.append("\tif (_");
                wr.append(c.flags_name.as_str());
                wr.append(".v & Flag::f_");
                wr.append(k);
                wr.append(") _");
                wr.append(k);
                wr.append(".write(to);\n");
            }
        } else {
            rd.append("\t\t&& ");
            rd.append("_");
            rd.append(k);
            rd.append(".read(from, end)\n");
            wr.append("\t_");
            wr.append(k);
            wr.append(".write(to);\n");
        }
        i += 1;
    }
    assert(ps.take(ps.len() as int) =~= ps);
    (rd, wr)
}

/// `\n class <full> { // RPC method '<tl name>'` opening, with the template
/// line for template methods.
pub open spec fn func_head(full: Seq<char>, c: CtorModel) -> Seq<char> {
    let tail = "\nclass "@ + full + " { // RPC method '"@ + c.tl_name + "'\n"@ + "public:\n"@;
    if c.is_template { "\ntemplate <typename TQueryType>"@ + tail } else { tail }
}

/// Default constructor definition.
pub open spec fn func_default_ctor(full: Seq<char>, is_template: bool) -> Seq<char> {
    if is_template {
        "template <typename TQueryType>\n"@ + full + "<TQueryType>::"@ + full + "() = default;\n"@
    } else {
        full + "::"@ + full + "() = default;\n"@
    }
}

/// Constructor declarations and definitions of an RPC method.
pub open spec fn func_ctors(cfg: CodegenScheme, full: Seq<char>, c: CtorModel) -> (Seq<char>, Seq<char>) {
    let st = stored_of(c, c.params);
    let dflt = func_default_ctor(full, c.is_template);
    if st.len() > 0 {
        let jp = join(args_of(cfg, c, c.params, true), ", "@);
        let ji = join(inits_of(c, c.params), ", "@);
        let e = if st.len() == 1 { "\texplicit "@ } else { "\t"@ };
        let full_ctor = if c.is_template {
            "template <typename TQueryType>\n"@ + full + "<TQueryType>::"@ + full + "("@ + jp + ") : "@ + ji + " {\n}\n"@
        } else {
            full + "::"@ + full + "("@ + jp + ") : "@ + ji + " {\n}\n"@
        };
        ("\t"@ + full + "();\n"@ + e + full + "("@ + jp + ");\n"@, dflt + full_ctor)
    } else {
        ("\t"@ + full + "();\n"@, dflt)
    }
}

fn func_default_ctor_exec(full: &str, is_template: bool) -> (r: String)
    ensures
        r@ == func_default_ctor(full@, is_template),
{
    if is_template {
        let mut s = String::from_str("template <typename TQueryType>\n");
        s.append(full);
        s.append("<TQueryType>::");
        s.append(full);
        s.append("() = default;\n");
        s
    } else {
        let mut s = String::from_str(full);
        s.append("::");
        s.append(full);
        s.append("() = default;\n");
        s
    }
}

fn func_ctors_exec(config: &CodegenScheme, full: &str, c: &Constructor) -> (r: (String, String))
    ensures
        (r.0@, r.1@) == func_ctors(*config, full@, c@),
{
    let (a, n) = args_exec(config, c, true);
    let mut dflt = func_default_ctor_exec(full, c.is_template);
    if a.len() > 0 {
        let jp = join_exec(&a, ", ");
        let ji = join_exec(&n, ", ");
        let e = if a.len() == 1 { "\texplicit " } else { "\t" };
        let full_ctor = if c.is_template {
            let mut s = String::from_str("template <typename TQueryType>\n");
            s.append(full);
            s.append("<TQueryType>::");
            s.append(full);
            s.append("(");
            s.append(jp.as_str());
            s.append(") : ");
            s.append(ji.as_str());
            s.append(" {\n}\n");
            s
        } else {
            let mut s = String::from_str(full);
            s.append("::");
            s.append(full);
            s.append("(");
            s.append(jp.as_str());
            s.append(") : ");
            s.append(ji.as_str());
            s.append(" {\n}\n");
            s
        };
        let mut d = String::from_str("\t");
        d.append(full);
        d.append("();\n");
        d.append(e);
        d.append(full);
        d.append("(");
        d.append(jp.as_str());
        d.append(");\n");
        dflt.append(full_ctor.as_str());
        (d, dflt)
    } else {
        let mut d = String::from_str("\t");
        d.append(full);
        d.append("();\n");
        (d, dflt)
    }
}

/// Read/write declarations and definitions of an RPC method.
pub open spec fn func_rw(cfg: CodegenScheme, full: Seq<char>, c: CtorModel) -> (Seq<char>, Seq<char>) {
    let t = tit(cfg);
    let prime = cfg.types.prime@;
    let buf = cfg.types.buffer@;
    let decl = "\n"@ + "\ttemplate <typename Prime>\n"@
        + "\t[[nodiscard]] bool read(const Prime *&from, const Prime *end, "@ + t + " cons = "@
        + idp(cfg) + c.name + ");\n"@
        + "\ttemplate <typename Accumulator>\n"@ + "\tvoid write(Accumulator &to) const;\n"@;
    let read_head = if c.is_template {
        "template <typename TQueryType>\n"@ + "template <typename Prime>\n"@ + "bool "@ + full
            + "<TQueryType>::read(const Prime *&from, const Prime *end, "@ + t + " cons) {\n"@
    } else {
        "template <typename Prime>\n"@ + "bool "@ + full
            + "::read(const Prime *&from, const Prime *end, "@ + t + " cons) {\n"@
    };
    let write_head = if c.is_template {
        "template <typename TQueryType>\n"@ + "template <typename Accumulator>\n"@ + "void "@ + full
            + "<TQueryType>::write(Accumulator &to) const {\n"@
    } else {
        "template <typename Accumulator>\n"@ + "void "@ + full + "::write(Accumulator &to) const {\n"@
    };
    let b = read_head + return_chain(func_read_lines(cfg, c, c.params)) + "}\n"@;
    let b = if c.is_template {
        b
    } else {
        b + "template bool "@ + full + "::read<"@ + prime + ">(const "@ + prime + " *&from, const "@
            + prime + " *end, "@ + t + " cons);\n"@
    };
    let b = b + write_head + func_write_lines(c, c.params) + "}\n"@;
    let b = if c.is_template {
        b
    } else {
        b + "template void "@ + full + "::write<"@ + buf + ">("@ + buf + " &to) const;\n"@
            + "template void "@ + full
            + "::write<::tl::details::LengthCounter>(::tl::details::LengthCounter &to) const;\n"@
    };
    (decl, b)
}

fn func_rw_exec(config: &CodegenScheme, full: &str, c: &Constructor) -> (r: (String, String))
    ensures
        (r.0@, r.1@) == func_rw(*config, full@, c@),
{
    let t = config.types.type_id.as_str();
    let prime = config.types.prime.as_str();
    let buf = config.types.buffer.as_str();
    let idp = config.id_prefix();
    let mut decl = String::from_str("\n");
    decl.append("\ttemplate <typename Prime>\n");
    decl.append("\t[[nodiscard]] bool read(const Prime *&from, const Prime *end, ");
    decl.append(t);
    decl.append(" cons = ");
    decl.append(idp.as_str());
    decl.append(c.name.as_str());
    decl.append(");\n");
    decl.append("\ttemplate <typename Accumulator>\n");
    decl.append("\tvoid write(Accumulator &to) const;\n");
    let mut b = if c.is_template {
        let mut s = String::from_str("template <typename TQueryType>\n");
        s.append("template <typename Prime>\n");
        s.append("bool ");
        s.append(full);
        s.append("<TQueryType>::read(const Prime *&from, const Prime *end, ");
        s.append(t);
        s.append(" cons) {\n");
        s
    } else {
        let mut s = String::from_str("template <typename Prime>\n");
        s.append("bool ");
        s.append(full);
        s.append("::read(const Prime *&from, const Prime *end, ");
        s.append(t);
        s.append(" cons) {\n");
        s
    };
    let write_head = if c.is_template {
        let mut s = String::from_str("template <typename TQueryType>\n");
        s.append("template <typename Accumulator>\n");
        s.append("void ");
        s.append(full);
        s.append("<TQueryType>::write(Accumulator &to) const {\n");
        s
    } else {
        let mut s = String::from_str("template <typename Accumulator>\n");
        s.append("void ");
        s.append(full);
        s.append("::write(Accumulator &to) const {\n");
        s
    };
    let (rd, wr) = func_read_write_lines(config, c);
    proof { lemma_chain_len(*config, c@, c@.params); }
    let ret = return_chain_exec(&rd);
    b.append(ret.as_str());
    b.append("}\n");
    if !c.is_template {
        b.append("template bool ");
        b.append(full);
        b.append("::read<");
        b.append(prime);
        b.append(">(const ");
        b.append(prime);
        b.append(" *&from, const ");
        b.append(prime);
        b.append(" *end, ");
        b.append(t);
        b.append(" cons);\n");
    }
    b.append(write_head.as_str());
    b.append(wr.as_str());
    b.append("}\n");
    if !c.is_template {
        b.append("template void ");
        b.append(full);
        b.append("::write<");
        b.append(buf);
        b.append(">(");
        b.append(buf);
        b.append(" &to) const;\n");
        b.append("template void ");
        b.append(full);
        b.append("::write<::tl::details::LengthCounter>(::tl::details::LengthCounter &to) const;\n");
    }
    (decl, b)
}

/// Class text of one RPC method.
pub open spec fn func_decl(cfg: CodegenScheme, rw: bool, key: Seq<char>, boxed: Seq<char>, c: CtorModel) -> Seq<char> {
    let full = spec_full_type_name(cfg, c.name);
    let stored = stored_of(c, c.params).len() > 0;
    let d = func_head(full, c);
    let d = if c.flags_name.len() > 0 { d + flags_enum_text(c.conditions, c.flags64_name.len() > 0) } else { d };
    let d = d + func_ctors(cfg, full, c).0;
    let d = d + "\t"@ + tit(cfg) + " type() const {\n\t\treturn "@ + idp(cfg) + c.name + ";\n\t}\n"@;
    let d = if rw { d + func_rw(cfg, full, c).0 } else { d };
    let d = if stored { d + "\n"@ + getters_of(cfg, full, c, c.params).0 } else { d };
    let d = if c.is_template {
        d + "\n\tusing ResponseType = typename TQueryType::ResponseType;\n\n"@
    } else {
        d + "\n\tusing ResponseType = "@
            + (if rw { spec_full_type_name(cfg, boxed) } else { spec_full_type_name(cfg, key) }) + ";\n\n"@
    };
    let d = if stored { d + "private:\n"@ + fields_of(cfg, c, c.params, true) + "\n"@ } else { d };
    let d = d + "};\n"@;
    if rw {
        let alias = spec_full_type_name(cfg, c.alias_name);
        if c.is_template {
            d + "template <typename TQueryType>\n"@ + "using "@ + alias + " = tl::boxed<"@ + full + "<TQueryType>>;\n"@
        } else {
            d + "using "@ + alias + " = tl::boxed<"@ + full + ">;\n"@
        }
    } else {
        d
    }
}

/// Out-of-class definitions of one RPC method.
pub open spec fn func_bodies(cfg: CodegenScheme, rw: bool, c: CtorModel) -> Seq<char> {
    let full = spec_full_type_name(cfg, c.name);
    let b = func_ctors(cfg, full, c).1;
    let b = if rw { b + func_rw(cfg, full, c).1 } else { b };
    if stored_of(c, c.params).len() > 0 { b + getters_of(cfg, full, c, c.params).1 } else { b }
}

fn func_texts(config: &CodegenScheme, rw: bool, key: &str, boxed: &str, c: &Constructor) -> (r: (String, String))
    ensures
        r.0@ == func_decl(*config, rw, key@, boxed@, c@),
        r.1@ == func_bodies(*config, rw, c@),
{
    let full = full_type(config, c.name.as_str());
    let (a, _) = args_exec(config, c, true);
    let stored = a.len() > 0;
    let tail = {
        let mut s = String::from_str("\nclass ");
        s.append(full.as_str());
        s.append(" { // RPC method '");
        s.append(c.tl_name.as_str());
        s.append("'\n");
        s.append("public:\n");
        s
    };
    let mut d = if c.is_template {
        let mut s = String::from_str("\ntemplate <typename TQueryType>");
        s.append(tail.as_str());
        s
    } else {
        tail
    };
    if c.flags_name.unicode_len() > 0 {
        let (e, _) = flags_enum(c, c.flags64_name.unicode_len() > 0);
        d.append(e.as_str());
    }
    let (cd, cb) = func_ctors_exec(config, full.as_str(), c);
    d.append(cd.as_str());
    let idp = config.id_prefix();
    d.append("\t");
    d.append(config.types.type_id.as_str());
    d.append(" type() const {\n\t\treturn ");
    d.append(idp.as_str());
    d.append(c.name.as_str());
    d.append(";\n\t}\n");
    let mut b = cb;
    if rw {
        let (rd, rb) = func_rw_exec(config, full.as_str(), c);
        d.append(rd.as_str());
        b.append(rb.as_str());
    }
    if stored {
        let (gd, gb) = getters_exec(config, full.as_str(), c);
        d.append("\n");
        d.append(gd.as_str());
        b.append(gb.as_str());
    }
    if c.is_template {
        d.append("\n\tusing ResponseType = typename TQueryType::ResponseType;\n\n");
    } else {
        let resp = if rw { full_type(config, boxed) } else { full_type(config, key) };
        d.append("\n\tusing ResponseType = ");
        d.append(resp.as_str());
        d.append(";\n\n");
    }
    if stored {
        let f = fields_exec(config, c, true);
        d.append("private:\n");
        d.append(f.as_str());
        d.append("\n");
    }
    d.append("};\n");
    if rw {
        let alias = full_type(config, c.alias_name.as_str());
        if c.is_template {
            d.append("template <typename TQueryType>\n");
            d.append("using ");
            d.append(alias.as_str());
            d.append(" = tl::boxed<");
            d.append(full.as_str());
            d.append("<TQueryType>>;\n");
        } else {
            d.append("using ");
            d.append(alias.as_str());
            d.append(" = tl::boxed<");
            d.append(full.as_str());
            d.append(">;\n");
        }
    }
    (d, b)
}

/// What one RPC method adds: its class text, its definitions (inline for
/// template methods) and, with flags, its flag table.
pub open spec fn func_ctor_step(cfg: CodegenScheme, rw: bool, key: Seq<char>, boxed: Seq<char>, c: CtorModel, st: GenModel) -> GenModel {
    let full = spec_full_type_name(cfg, c.name);
    let bodies = func_bodies(cfg, rw, c);
    GenModel {
        funcs_text: st.funcs_text + func_decl(cfg, rw, key, boxed, c),
        methods: if c.is_template { st.methods } else { st.methods + bodies },
        inline_methods: if c.is_template { st.inline_methods + bodies } else { st.inline_methods },
        parent_flags_check: if c.flags_name.len() > 0 {
            assoc_put(st.parent_flags_check, full, flag_check(c.conditions))
        } else {
            st.parent_flags_check
        },
        ..st
    }
}

pub open spec fn func_ctors_fold(cfg: CodegenScheme, rw: bool, key: Seq<char>, boxed: Seq<char>, cs: Seq<CtorModel>, st: GenModel) -> GenModel
    decreases cs.len(),
{
    if cs.len() == 0 {
        st
    } else {
        func_ctor_step(cfg, rw, key, boxed, cs.last(), func_ctors_fold(cfg, rw, key, boxed, cs.drop_last(), st))
    }
}

/// All RPC methods of the function table, in table order.
pub open spec fn funcs_fold(cfg: CodegenScheme, rw: bool, t: Seq<(Seq<char>, TypeDefModel)>, st: GenModel) -> GenModel
    decreases t.len(),
{
    if t.len() == 0 {
        st
    } else {
        let prev = funcs_fold(cfg, rw, t.drop_last(), st);
        func_ctors_fold(cfg, rw, t.last().0, t.last().1.boxed_name, t.last().1.ctors, prev)
    }
}

fn func_step_exec(config: &CodegenScheme, rw: bool, key: &str, boxed: &str, c: &Constructor, g: &mut Generated)
    ensures
        final(g)@ == func_ctor_step(*config, rw, key@, boxed@, c@, old(g)@),
{
    let (d, b) = func_texts(config, rw, key, boxed, c);
    g.funcs_text.append(d.as_str());
    if c.is_template {
        g.inline_methods.append(b.as_str());
    } else {
        g.methods.append(b.as_str());
    }
    if c.flags_name.unicode_len() > 0 {
        let full = full_type(config, c.name.as_str());
        let (_, check) = flags_enum(c, c.flags64_name.unicode_len() > 0);
        put_map(&mut g.parent_flags_check, full, check);
    }
    assert(g@ =~= func_ctor_step(*config, rw, key@, boxed@, c@, old(g)@));
}

fn func_def_exec(config: &CodegenScheme, rw: bool, key: &str, def: &TypeDef, g: &mut Generated)
    ensures
        final(g)@ == func_ctors_fold(*config, rw, key@, def@.boxed_name, def@.ctors, old(g)@),
{
    let ghost st0 = g@;
    let ghost cs = def@.ctors;
    let mut j: usize = 0;
    while j < def.ctors.len()
        invariant
            j <= def.ctors@.len(),
            cs == def@.ctors,
            cs.len() == def.ctors@.len(),
            g@ == func_ctors_fold(*config, rw, key@, def@.boxed_name, cs.take(j as int), st0),
        decreases def.ctors.len() - j,
    {
        assert(cs.take(j + 1).drop_last() =~= cs.take(j as int));
        assert(cs.take(j + 1).last() == def.ctors@[j as int]@);
        func_step_exec(config, rw, key, def.boxed_name.as_str(), &def.ctors[j], g);
        j += 1;
    }
    assert(cs.take(cs.len() as int) =~= cs);
}

fn funcs_pass(scheme: &Scheme, config: &CodegenScheme, rw: bool, g: &mut Generated)
    ensures
        final(g)@ == funcs_fold(*config, rw, table_view(scheme.funcs), old(g)@),
{
    let ghost t = table_view(scheme.funcs);
    let ghost st0 = g@;
    let n = table_len(&scheme.funcs);
    let mut i: usize = 0;
    while i < n
        invariant
            i <= n,
            n == t.len(),
            t == table_view(scheme.funcs),
            g@ == funcs_fold(*config, rw, t.take(i as int), st0),
        decreases n - i,
    {
        assert(t.take(i + 1).drop_last() =~= t.take(i as int));
        let (key, def) = table_get_index(&scheme.funcs, i).unwrap();
        assert(t.take(i + 1).last() == (key@, def@));
        func_def_exec(config, rw, key.as_str(), def, g);
        i += 1;
    }
    assert(t.take(t.len() as int) =~= t);
}


// ---------------------------------------------------------------------------
// Builtin typedefs and flag cast operators
// ---------------------------------------------------------------------------

/// A name whose first character can be sliced off as one byte.
pub open spec fn first_byte_char(t: Seq<char>) -> bool {
    t.len() > 0 && crate::text::is_ascii_char(t[0])
}

/// Boxed aliases of the builtin types (and builtin templates), appended to
/// `acc`.
pub open spec fn builtin_typedefs(acc: Seq<char>, tp: Seq<char>, names: Seq<Seq<char>>, tmpl: bool) -> Seq<char>
    decreases names.len(),
{
    if names.len() == 0 {
        acc
    } else {
        let t = names.last();
        let prev = builtin_typedefs(acc, tp, names.drop_last(), tmpl);
        if tmpl {
            prev + "template <typename T>\n"@ + "using "@ + tp + upper_first(t) + " = tl::boxed<"@ + tp + t + "<T>>;\n"@
        } else {
            prev + "using "@ + tp + upper_first(t) + " = tl::boxed<"@ + tp + t + ">;\n"@
        }
    }
}

fn builtin_typedefs_exec(out: &mut String, tp: &str, names: &Vec<String>, tmpl: bool)
    ensures
        final(out)@ == builtin_typedefs(old(out)@, tp@, views(names@), tmpl),
{
    let ghost acc = out@;
    let ghost ns = views(names@);
    let mut i: usize = 0;
    while i < names.len()
        invariant
            i <= names@.len(),
            ns == views(names@),
            out@ == builtin_typedefs(acc, tp@, ns.take(i as int), tmpl),
        decreases names.len() - i,
    {
        assert(ns.take(i + 1).drop_last() =~= ns.take(i as int));
        assert(ns.take(i + 1).last() == names@[i as int]@);
        let t = names[i].as_str();
        let mut up = chars_of(t);
        upper_first_exec(&mut up);
        let u = string_of(&up);
        if tmpl {
            out.append("template <typename T>\n");
        }
        out.append("using ");
        out.append(tp);
        out.append(u.as_str());
        out.append(" = tl::boxed<");
        out.append(tp);
        out.append(t);
        if tmpl {
            out.append("<T>>;\n");
        } else {
            out.append(">;\n");
        }
        i += 1;
    }
    assert(ns.take(ns.len() as int) =~= ns);
}

/// One `(child, parent)` flag inheritance: two cast operators, and the
/// child's flags merged into the parent's table.
pub open spec fn flag_op_step(
    cfg: CodegenScheme,
    pair: (Seq<char>, Seq<char>),
    s: (Seq<char>, Seq<(Seq<char>, Seq<(Seq<char>, u32)>)>),
) -> (Seq<char>, Seq<(Seq<char>, Seq<(Seq<char>, u32)>)>) {
    if pair.0 == "channelForbidden"@ {
        s
    } else {
        let cf = cfg.prefixes.data@ + pair.0;
        let pf = cfg.prefixes.data@ + pair.1;
        let cm = assoc_get_or(s.1, cf, Seq::<(Seq<char>, u32)>::empty());
        let pm = assoc_get_or(s.1, pf, Seq::<(Seq<char>, u32)>::empty());
        (
            s.0 + "inline "@ + pf + "::Flags mtpCastFlags("@ + cf + "::Flags flags) { return static_cast<"@ + pf
                + "::Flag>(flags.value()); }\n"@ + "inline "@ + pf + "::Flags mtpCastFlags(MTPflags<"@ + cf
                + "::Flags> flags) { return mtpCastFlags(flags.v); }\n"@,
            assoc_put(s.1, pf, merge_missing(pm, cm)),
        )
    }
}

/// After a flag cast pair, the parent's flag table holds every flag of the
/// child's table (the child's flags are a subset of the parent's).
pub proof fn law_flag_op_parent_covers_child(
    cfg: CodegenScheme,
    pair: (Seq<char>, Seq<char>),
    s: (Seq<char>, Seq<(Seq<char>, Seq<(Seq<char>, u32)>)>),
)
    requires
        pair.0 != "channelForbidden"@,
    ensures
        ({
            let cf = cfg.prefixes.data@ + pair.0;
            let pf = cfg.prefixes.data@ + pair.1;
            let child = assoc_get_or(s.1, cf, Seq::<(Seq<char>, u32)>::empty());
            let parent_after = assoc_get_or(flag_op_step(cfg, pair, s).1, pf, Seq::<(Seq<char>, u32)>::empty());
            forall|i: int| 0 <= i < child.len() ==> first_pos(keys_of(parent_after), (#[trigger] child[i]).0) is Some
        }),
{
    let cf = cfg.prefixes.data@ + pair.0;
    let pf = cfg.prefixes.data@ + pair.1;
    let cm = assoc_get_or(s.1, cf, Seq::<(Seq<char>, u32)>::empty());
    let pm = assoc_get_or(s.1, pf, Seq::<(Seq<char>, u32)>::empty());
    law_assoc_put_get(s.1, pf, merge_missing(pm, cm), Seq::<(Seq<char>, u32)>::empty());
    law_merge_keeps_parent_covers_child(pm, cm);
}

pub open spec fn flag_ops_fold(
    cfg: CodegenScheme,
    fi: Seq<(Seq<char>, Seq<char>)>,
    s: (Seq<char>, Seq<(Seq<char>, Seq<(Seq<char>, u32)>)>),
) -> (Seq<char>, Seq<(Seq<char>, Seq<(Seq<char>, u32)>)>)
    decreases fi.len(),
{
    if fi.len() == 0 {
        s
    } else {
        flag_op_step(cfg, fi.last(), flag_ops_fold(cfg, fi.drop_last(), s))
    }
}

/// The two cast operators one `(child, parent)` pair writes; none for
/// `channelForbidden`.
pub open spec fn flag_cast_text(cfg: CodegenScheme, pair: (Seq<char>, Seq<char>)) -> Seq<char> {
    if pair.0 == "channelForbidden"@ {
        Seq::empty()
    } else {
        let cf = cfg.prefixes.data@ + pair.0;
        let pf = cfg.prefixes.data@ + pair.1;
        "inline "@ + pf + "::Flags mtpCastFlags("@ + cf + "::Flags flags) { return static_cast<"@ + pf
            + "::Flag>(flags.value()); }\n"@ + "inline "@ + pf + "::Flags mtpCastFlags(MTPflags<"@ + cf
            + "::Flags> flags) { return mtpCastFlags(flags.v); }\n"@
    }
}

/// The cast operators of every pair, in list order.
pub open spec fn flag_casts_text(cfg: CodegenScheme, fi: Seq<(Seq<char>, Seq<char>)>) -> Seq<char>
    decreases fi.len(),
{
    if fi.len() == 0 {
        Seq::empty()
    } else {
        flag_casts_text(cfg, fi.drop_last()) + flag_cast_text(cfg, fi.last())
    }
}

pub proof fn lemma_flag_ops_fold_text(
    cfg: CodegenScheme,
    fi: Seq<(Seq<char>, Seq<char>)>,
    s: (Seq<char>, Seq<(Seq<char>, Seq<(Seq<char>, u32)>)>),
)
    ensures
        flag_ops_fold(cfg, fi, s).0 == s.0 + flag_casts_text(cfg, fi),
    decreases fi.len(),
{
    if fi.len() == 0 {
        assert(s.0 + flag_casts_text(cfg, fi) =~= s.0);
    } else {
        lemma_flag_ops_fold_text(cfg, fi.drop_last(), s);
        let prev = flag_ops_fold(cfg, fi.drop_last(), s);
        assert(prev.0 + flag_cast_text(cfg, fi.last()) =~= s.0 + flag_casts_text(cfg, fi));
        if fi.last().0 != "channelForbidden"@ {
            assert(flag_op_step(cfg, fi.last(), prev).0 =~= prev.0 + flag_cast_text(cfg, fi.last()));
        }
    }
}

/// The method pass never writes the flag cast operators.
pub proof fn lemma_funcs_fold_keeps_flag_operators(cfg: CodegenScheme, rw: bool, t: Seq<(Seq<char>, TypeDefModel)>, st: GenModel)
    ensures
        funcs_fold(cfg, rw, t, st).flag_operators == st.flag_operators,
    decreases t.len(),
{
    if t.len() > 0 {
        lemma_funcs_fold_keeps_flag_operators(cfg, rw, t.drop_last(), st);
        lemma_func_ctors_fold_keeps_flag_operators(cfg, rw, t.last().0, t.last().1.boxed_name, t.last().1.ctors,
            funcs_fold(cfg, rw, t.drop_last(), st));
    }
}

pub proof fn lemma_func_ctors_fold_keeps_flag_operators(cfg: CodegenScheme, rw: bool, key: Seq<char>, boxed: Seq<char>, cs: Seq<CtorModel>, st: GenModel)
    ensures
        func_ctors_fold(cfg, rw, key, boxed, cs, st).flag_operators == st.flag_operators,
    decreases cs.len(),
{
    if cs.len() > 0 {
        lemma_func_ctors_fold_keeps_flag_operators(cfg, rw, key, boxed, cs.drop_last(), st);
    }
}

fn flag_ops_exec(config: &CodegenScheme, g: &mut Generated)
    ensures
        (final(g)@.flag_operators, final(g)@.parent_flags_check)
            == flag_ops_fold(*config, pair_views(config.flag_inheritance@), (old(g)@.flag_operators, old(g)@.parent_flags_check)),
        final(g)@ == (GenModel { flag_operators: final(g)@.flag_operators, parent_flags_check: final(g)@.parent_flags_check, ..old(g)@ }),
{
    let ghost fi = pair_views(config.flag_inheritance@);
    let ghost s0 = (g@.flag_operators, g@.parent_flags_check);
    let mut i: usize = 0;
    while i < config.flag_inheritance.len()
        invariant
            i <= config.flag_inheritance@.len(),
            fi == pair_views(config.flag_inheritance@),
            (g@.flag_operators, g@.parent_flags_check) == flag_ops_fold(*config, fi.take(i as int), s0),
            g@ == (GenModel { flag_operators: g@.flag_operators, parent_flags_check: g@.parent_flags_check, ..old(g)@ }),
        decreases config.flag_inheritance.len() - i,
    {
        assert(fi.take(i + 1).drop_last() =~= fi.take(i as int));
        assert(fi.take(i + 1).last() == (config.flag_inheritance@[i as int].0@, config.flag_inheritance@[i as int].1@));
        let child = config.flag_inheritance[i].0.as_str();
        let parent = config.flag_inheritance[i].1.as_str();
        if !str_eq(child, "channelForbidden") {
            let mut cf = config.prefixes.data.clone();
            cf.append(child);
            let mut pf = config.prefixes.data.clone();
            pf.append(parent);
            let cm = get_map(&g.parent_flags_check, cf.as_str());
            let mut pm = get_map(&g.parent_flags_check, pf.as_str());
            merge_missing_exec(&mut pm, &cm);
            let t = &mut g.flag_operators;
            t.append("inline ");
            t.append(pf.as_str());
            t.append("::Flags mtpCastFlags(");
            t.append(cf.as_str());
            t.append("::Flags flags) { return static_cast<");
            t.append(pf.as_str());
            t.append("::Flag>(flags.value()); }\n");
            t.append("inline ");
            t.append(pf.as_str());
            t.append("::Flags mtpCastFlags(MTPflags<");
            t.append(cf.as_str());
            t.append("::Flags> flags) { return mtpCastFlags(flags.v); }\n");
            put_map(&mut g.parent_flags_check, pf, pm);
        }
        i += 1;
    }
    assert(fi.take(fi.len() as int) =~= fi);
}

// ---------------------------------------------------------------------------
// The pass
// ---------------------------------------------------------------------------

/// The inputs the pass handles: with a read-write section the builtin names
/// start with a one-byte character, and every type passes `types_ok`.
pub open spec fn generate_ok(sm: SchemeModel, cfg: CodegenScheme) -> bool {
    &&& cfg.spec_read_write_section() ==> (forall|i: int| 0 <= i < cfg.builtin@.len() ==> first_byte_char(#[trigger] cfg.builtin@[i]@))
    &&& cfg.spec_read_write_section() ==> (forall|i: int| 0 <= i < cfg.builtin_templates@.len() ==> first_byte_char(#[trigger] cfg.builtin_templates@[i]@))
    &&& types_ok(cfg.spec_read_write_section(), sm.types)
}

/// The accumulators after the pass: builtin typedefs (read-write only),
/// then the RPC methods, then the types, then the flag cast operators.
pub open spec fn spec_generate(sm: SchemeModel, cfg: CodegenScheme) -> GenModel {
    let rw = cfg.spec_read_write_section();
    let tp = cfg.prefixes.type_@;
    let st1 = GenModel {
        forw_typedefs: if rw {
            builtin_typedefs(builtin_typedefs(Seq::empty(), tp, views(cfg.builtin@), false), tp, views(cfg.builtin_templates@), true)
        } else {
            Seq::empty()
        },
        ..gen_empty()
    };
    let st2 = funcs_fold(cfg, rw, sm.funcs, st1);
    let st3 = types_fold(cfg, rw, cfg.optimize_single_data, sm.types, st2);
    let f = flag_ops_fold(cfg, pair_views(cfg.flag_inheritance@), (st3.flag_operators + "\n"@, st3.parent_flags_check));
    GenModel { flag_operators: f.0, parent_flags_check: f.1, ..st3 }
}

/// The flag cast operators of a generation pass are a newline followed by
/// the two operators of every flag-inheritance pair (but
/// `channelForbidden`), in the configuration's order.
pub proof fn law_generate_flag_operators(sm: SchemeModel, cfg: CodegenScheme)
    ensures
        spec_generate(sm, cfg).flag_operators == "\n"@ + flag_casts_text(cfg, pair_views(cfg.flag_inheritance@)),
{
    let rw = cfg.spec_read_write_section();
    let tp = cfg.prefixes.type_@;
    let st1 = GenModel {
        forw_typedefs: if rw {
            builtin_typedefs(builtin_typedefs(Seq::empty(), tp, views(cfg.builtin@), false), tp, views(cfg.builtin_templates@), true)
        } else {
            Seq::empty()
        },
        ..gen_empty()
    };
    let st2 = funcs_fold(cfg, rw, sm.funcs, st1);
    lemma_funcs_fold_keeps_flag_operators(cfg, rw, sm.funcs, st1);
    lemma_types_fold_keeps_flag_operators(cfg, rw, cfg.optimize_single_data, sm.types, st2);
    let st3 = types_fold(cfg, rw, cfg.optimize_single_data, sm.types, st2);
    lemma_flag_ops_fold_text(cfg, pair_views(cfg.flag_inheritance@), (st3.flag_operators + "\n"@, st3.parent_flags_check));
    assert(st3.flag_operators =~= Seq::<char>::empty());
    assert(st3.flag_operators + "\n"@ =~= "\n"@);
}

/// Full generation pass over a parsed scheme.
pub fn generate(scheme: &Scheme, config: &CodegenScheme) -> (g: Generated)
    requires
        generate_ok(scheme_view(*scheme), *config),
    ensures
        g@ == spec_generate(scheme_view(*scheme), *config),
{
    let mut g = Generated::default();
    let rw = config.read_write_section();
    let opt = config.optimize_single_data();
    if rw {
        builtin_typedefs_exec(&mut g.forw_typedefs, config.prefixes.type_.as_str(), &config.builtin, false);
        builtin_typedefs_exec(&mut g.forw_typedefs, config.prefixes.type_.as_str(), &config.builtin_templates, true);
    }
    let ghost tp = config.prefixes.type_@;
    let ghost st1 = GenModel {
        forw_typedefs: if rw {
            builtin_typedefs(builtin_typedefs(Seq::empty(), tp, views(config.builtin@), false), tp, views(config.builtin_templates@), true)
        } else {
            Seq::empty()
        },
        ..gen_empty()
    };
    assert(g@ =~= st1);
    funcs_pass(scheme, config, rw, &mut g);
    types_pass(scheme, config, rw, opt, &mut g);
    g.flag_operators.append("\n");
    flag_ops_exec(config, &mut g);
    g
}

fn first_bytes_ok(names: &Vec<String>) -> (r: bool)
    ensures
        r == forall|i: int| 0 <= i < names@.len() ==> first_byte_char(#[trigger] names@[i]@),
{
    let mut i: usize = 0;
    while i < names.len()
        invariant
            i <= names@.len(),
            forall|k: int| 0 <= k < i ==> first_byte_char(#[trigger] names@[k]@),
        decreases names.len() - i,
    {
        let v = chars_of(names[i].as_str());
        if !(v.len() > 0 && crate::text::ascii(v[0])) {
            return false;
        }
        i += 1;
    }
    true
}

/// Whether the pass handles `scheme` under `config` (`generate_ok`).
pub fn generate_ok_exec(scheme: &Scheme, config: &CodegenScheme) -> (r: bool)
    ensures
        r == generate_ok(scheme_view(*scheme), *config),
{
    let rw = config.read_write_section();
    if rw && !(first_bytes_ok(&config.builtin) && first_bytes_ok(&config.builtin_templates)) {
        return false;
    }
    types_ok_exec(scheme, config, rw)
}

} // verus!
