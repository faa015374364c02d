//! The meaning of a whole scheme parse, line by line: what each line does
//! to the tables, the warnings, the enum lines and the comment accumulator,
//! and the inputs on which parsing cannot proceed.

use vstd::prelude::*;
use crate::config::CodegenScheme;
use crate::crc::{crc32, apply_synonyms, drop_true_flags_from};
use crate::ir::{CtorModel, ParamModel, TypeDefModel};
use crate::parse::{
    Class, HeaderModel, RawParamModel, bare_name_panics, in_class, is_braced, lower_first, run,
    spec_normalized_bare_name, spec_normalized_name, spec_parse_ctor_header, spec_parse_raw_param,
    split_once, upper_first,
};
use crate::resolve::{
    Process, handle_template_panics, spec_full_data_name, spec_full_type_name, spec_handle_template,
};
use crate::text::{
    lemma_replace_from_no_char, lemma_map_char_clears, lemma_map_char_keeps_absent,
    lemma_drop_chars_keeps_absent,
    contains, ends_with, find, find_char, hex8, hex_min, is_ascii_alpha, is_ascii_char,
    is_ascii_upper, map_char, matches_at, pair_views, parse_hex_u32, replace, rfind_char,
    split_char, starts_with, trim, trim_start_char, views, to_lower, drop_chars,
};
use crate::tl::{
    spec_is_bots_only_line, spec_is_bots_only_param, spec_is_mobile_only_line,
    spec_is_nullable_param, spec_is_nullable_vector, spec_line_notes, spec_param_notes,
};
use vstd::utf8::encode_utf8;

verus! {

// ---------------------------------------------------------------------------
// Line preprocessing
// ---------------------------------------------------------------------------

/// `^(.*?)//(.*?)$`: a line without `\n` holding `//` splits at the first
/// `//` into code and comment.
pub open spec fn spec_comment_split(raw: Seq<char>) -> Option<(Seq<char>, Seq<char>)> {
    if find_char(raw, '\n') is Some {
        None
    } else {
        match find(raw, "//"@) {
            Some(p) => Some((raw.take(p), raw.skip(p + 2))),
            None => None,
        }
    }
}

/// Synonym pass of the CRC line: `:from ` -> `:to ` then `?from ` -> `?to `.
pub open spec fn crc_synonyms(line: Seq<char>, syns: Seq<(Seq<char>, Seq<char>)>) -> Seq<char>
    decreases syns.len(),
{
    if syns.len() == 0 {
        line
    } else {
        let prev = crc_synonyms(line, syns.drop_last());
        let (from, to) = syns.last();
        let a = replace(prev, ":"@ + from + " "@, ":"@ + to + " "@);
        replace(a, "?"@ + from + " "@, "?"@ + to + " "@)
    }
}

/// The canonical line a constructor's CRC is computed over.
pub open spec fn spec_clean_line_for_crc(ctor_name: Seq<char>, params_raw: Seq<char>, result: Seq<char>, cfg: CodegenScheme) -> Seq<char> {
    let line0 = ctor_name + params_raw + "= "@ + result;
    let line1 = drop_true_flags_from(line0, 0);
    let line2 = map_char(map_char(line1, '<', ' '), '>', ' ');
    let line3 = replace(line2, "  "@, " "@);
    let s1 = if line3.len() > 0 && line3[0] == ' ' { line3.drop_first() } else { line3 };
    let line4 = if s1.len() > 0 && s1.last() == ' ' { s1.drop_last() } else { line3 };
    let line5 = crc_synonyms(line4, pair_views(cfg.synonyms@));
    drop_chars(line5, '{', '}')
}

/// The synonym pass adds a character only where some synonym's target
/// holds it.
pub proof fn lemma_crc_synonyms_keeps_absent(line: Seq<char>, syns: Seq<(Seq<char>, Seq<char>)>, x: char)
    requires
        !line.contains(x),
        x != ':' && x != '?' && x != ' ',
        forall|i: int| 0 <= i < syns.len() ==> !(#[trigger] syns[i]).1.contains(x),
    ensures
        !crc_synonyms(line, syns).contains(x),
    decreases syns.len(),
{
    if syns.len() > 0 {
        lemma_crc_synonyms_keeps_absent(line, syns.drop_last(), x);
        let prev = crc_synonyms(line, syns.drop_last());
        let (from, to) = syns.last();
        assert(!syns[syns.len() - 1].1.contains(x));
        let t1 = ":"@ + to + " "@;
        let t2 = "?"@ + to + " "@;
        reveal_strlit(":");
        reveal_strlit("?");
        reveal_strlit(" ");
        assert forall|j: int| 0 <= j < t1.len() implies t1[j] != x by {
            if 1 <= j < t1.len() - 1 { assert(to[j - 1] != x); }
        }
        assert forall|j: int| 0 <= j < t2.len() implies t2[j] != x by {
            if 1 <= j < t2.len() - 1 { assert(to[j - 1] != x); }
        }
        let f1 = ":"@ + from + " "@;
        let f2 = "?"@ + from + " "@;
        assert(f1.len() > 0 && f2.len() > 0);
        lemma_replace_from_no_char(prev, f1, t1, 0, x);
        let a = replace(prev, f1, t1);
        lemma_replace_from_no_char(a, f2, t2, 0, x);
    }
}

/// The line a constructor id is computed over holds no `<` or `>`: both
/// become spaces, and no later step brings them back unless a synonym's
/// target holds one.
pub proof fn law_crc_line_has_no_angle_brackets(ctor_name: Seq<char>, params_raw: Seq<char>, result: Seq<char>, cfg: CodegenScheme)
    requires
        forall|i: int| 0 <= i < cfg.synonyms@.len() ==>
            !(#[trigger] cfg.synonyms@[i]).1@.contains('<') && !cfg.synonyms@[i].1@.contains('>'),
    ensures
        forall|i: int| 0 <= i < spec_clean_line_for_crc(ctor_name, params_raw, result, cfg).len() ==>
            spec_clean_line_for_crc(ctor_name, params_raw, result, cfg)[i] != '<'
            && spec_clean_line_for_crc(ctor_name, params_raw, result, cfg)[i] != '>',
{
    let line0 = ctor_name + params_raw + "= "@ + result;
    let line1 = drop_true_flags_from(line0, 0);
    let a = map_char(line1, '<', ' ');
    let line2 = map_char(a, '>', ' ');
    lemma_map_char_clears(line1, '<', ' ');
    lemma_map_char_keeps_absent(a, '>', ' ', '<');
    lemma_map_char_clears(a, '>', ' ');
    reveal_strlit("  ");
    reveal_strlit(" ");
    let line3 = replace(line2, "  "@, " "@);
    assert(!" "@.contains('<') && !" "@.contains('>'));
    lemma_replace_from_no_char(line2, "  "@, " "@, 0, '<');
    lemma_replace_from_no_char(line2, "  "@, " "@, 0, '>');
    let s1 = if line3.len() > 0 && line3[0] == ' ' { line3.drop_first() } else { line3 };
    let line4 = if s1.len() > 0 && s1.last() == ' ' { s1.drop_last() } else { line3 };
    assert(!line4.contains('<') && !line4.contains('>')) by {
        assert forall|j: int| 0 <= j < line4.len() implies line4[j] != '<' && line4[j] != '>' by {
            if s1.len() > 0 && s1.last() == ' ' {
                if line3.len() > 0 && line3[0] == ' ' { assert(line4[j] == line3[j + 1]); } else { assert(line4[j] == line3[j]); }
            } else {
                assert(line4[j] == line3[j]);
            }
        }
    }
    let ps = pair_views(cfg.synonyms@);
    assert forall|i: int| 0 <= i < ps.len() implies !(#[trigger] ps[i]).1.contains('<') && !ps[i].1.contains('>') by {
        assert(ps[i].1 == cfg.synonyms@[i].1@);
    }
    lemma_crc_synonyms_keeps_absent(line4, ps, '<');
    lemma_crc_synonyms_keeps_absent(line4, ps, '>');
    let line5 = crc_synonyms(line4, ps);
    lemma_drop_chars_keeps_absent(line5, '{', '}', '<');
    lemma_drop_chars_keeps_absent(line5, '{', '}', '>');
    let r = spec_clean_line_for_crc(ctor_name, params_raw, result, cfg);
    assert(r == drop_chars(line5, '{', '}'));
    assert forall|i: int| 0 <= i < r.len() implies r[i] != '<' && r[i] != '>' by {
        if r[i] == '<' { assert(r.contains('<')); }
        if r[i] == '>' { assert(r.contains('>')); }
    }
}

// ---------------------------------------------------------------------------
// Names of a constructor
// ---------------------------------------------------------------------------

/// Value for `key` among `(key, value)` pairs (first match).
pub open spec fn lookup(pairs: Seq<(Seq<char>, Seq<char>)>, key: Seq<char>) -> Option<Seq<char>>
    decreases pairs.len(),
{
    if pairs.len() == 0 {
        None
    } else if pairs[0].0 == key {
        Some(pairs[0].1)
    } else {
        lookup(pairs.drop_first(), key)
    }
}

/// The class-style name and the normalized name of a (renamed) constructor
/// name; `None` where the first character of the part after the last dot
/// cannot be sliced (empty, or not ASCII).
pub open spec fn spec_class_name(name: Seq<char>) -> Option<(Seq<char>, Seq<char>)> {
    match rfind_char(name, '.') {
        Some(ind) => {
            let tail = name.skip(ind + 1);
            if tail.len() == 0 || !is_ascii_char(tail[0]) {
                None
            } else {
                Some((name.take(ind) + "_"@ + upper_first(tail), spec_normalized_name(name)))
            }
        },
        None => {
            if name.len() == 0 || !is_ascii_char(name[0]) {
                None
            } else {
                Some((upper_first(name), name))
            }
        },
    }
}

/// Result type normalization: `(table key, boxed alias)`.
pub open spec fn spec_normalize_result(
    cfg: CodegenScheme,
    types: Seq<(Seq<char>, TypeDefModel)>,
    funcs: Seq<(Seq<char>, TypeDefModel)>,
    restype_raw: Seq<char>,
) -> Result<(Seq<char>, Seq<char>), Seq<char>> {
    let restype_r = if find_char(restype_raw, '<') is Some {
        spec_handle_template(cfg, types, funcs, restype_raw, Process::FullType)
    } else {
        Ok(restype_raw)
    };
    match restype_r {
        Err(e) => Err(e),
        Ok(restype) => {
            let res_type = spec_normalized_name(restype);
            match rfind_char(restype, '.') {
                Some(dot) => {
                    let ns = restype.take(dot);
                    let tail = restype.skip(dot + 1);
                    if tail.len() == 0 || !is_ascii_upper(tail[0]) {
                        Err("Bad result type name with dot: "@ + restype)
                    } else {
                        Ok((map_char(ns, '.', '_') + "_"@ + lower_first(tail), res_type))
                    }
                },
                None => {
                    if restype.len() > 0 && is_ascii_upper(restype[0]) {
                        Ok((lower_first(restype), res_type))
                    } else {
                        Err("Bad result type name: "@ + restype)
                    }
                },
            }
        },
    }
}

// ---------------------------------------------------------------------------
// Parameters
// ---------------------------------------------------------------------------

/// Read-only context of one constructor's parameter loop.
pub struct PCtx {
    pub cfg: CodegenScheme,
    pub types: Seq<(Seq<char>, TypeDefModel)>,
    pub funcs: Seq<(Seq<char>, TypeDefModel)>,
    pub type_ctors: Seq<(Seq<char>, Seq<char>)>,
    pub comments: Seq<char>,
    pub line: Seq<char>,
    /// Normalized constructor name.
    pub name: Seq<char>,
    pub funcs_now: bool,
    pub read_write: bool,
}

/// State of one constructor's parameter loop.
#[verifier::ext_equal]
pub struct PPState {
    pub params: Seq<ParamModel>,
    pub conditions: Seq<(Seq<char>, u32)>,
    pub trivial: Seq<Seq<char>>,
    pub has_flags: Seq<char>,
    pub has_flags64: Seq<char>,
    pub has_template: Seq<char>,
    pub is_template: Seq<char>,
    pub nullable_params: Seq<Seq<char>>,
    pub nullable_vectors: Seq<Seq<char>>,
    pub bots_only: Seq<Seq<char>>,
    pub warnings: Seq<Seq<char>>,
    /// Diagnostics of the comment-tag checks, in check order.
    pub notes: Seq<Seq<char>>,
    pub failed: bool,
}

/// Insert into a list used as a set.
pub open spec fn set_add(s: Seq<Seq<char>>, x: Seq<char>) -> Seq<Seq<char>> {
    if s.contains(x) { s } else { s.push(x) }
}

pub open spec fn cond_names(c: Seq<(Seq<char>, u32)>) -> Seq<Seq<char>> {
    c.map_values(|p: (Seq<char>, u32)| p.0)
}

/// The loop stops with a warning.
pub open spec fn fail_with(st: PPState, w: Seq<char>) -> PPState {
    PPState { warnings: st.warnings.push(w), failed: true, ..st }
}

pub open spec fn bad_param(ctx: PCtx, token: Seq<char>) -> Seq<char> {
    "Bad param found: \""@ + token + "\" in line: "@ + ctx.line
}

pub open spec fn param_process(ctx: PCtx) -> Process {
    if ctx.read_write { Process::FullType } else { Process::FullBareType }
}

/// Template resolution of a parameter type containing `<`.
pub open spec fn resolve_param_type(ctx: PCtx, ptype: Seq<char>) -> Result<Seq<char>, Seq<char>> {
    spec_handle_template(ctx.cfg, ctx.types, ctx.funcs, ptype, param_process(ctx))
}

pub open spec fn resolve_param_type_panics(ctx: PCtx, ptype: Seq<char>) -> bool {
    handle_template_panics(ctx.cfg, ctx.types, ctx.funcs, ptype, param_process(ctx))
}

/// Normalized parameter type, mapped through the constructor table.
pub open spec fn param_type_key(ctx: PCtx, ptype: Seq<char>) -> Seq<char> {
    let normalized = if ctx.read_write {
        spec_normalized_name(ptype)
    } else {
        match spec_normalized_bare_name(ptype) {
            Ok(b) => b,
            Err(_) => ptype,
        }
    };
    match lookup(ctx.type_ctors, normalized) {
        Some(bare) => bare,
        None => normalized,
    }
}

pub open spec fn param_type_key_panics(ctx: PCtx, ptype: Seq<char>) -> bool {
    !ctx.read_write && bare_name_panics(ptype)
}

/// Text before the first `:` of a token.
pub open spec fn token_name(token: Seq<char>) -> Seq<char> {
    split_char(token, ':')[0]
}

/// `{X:Type}` with an alphabetic `X`.
pub open spec fn template_decl_ok(token: Seq<char>) -> Option<Seq<char>> {
    match split_once(token.subrange(1, token.len() - 1), ':') {
        Some((var, bound)) => if bound == "Type"@ && (forall|i: int| 0 <= i < var.len() ==> is_ascii_alpha(#[trigger] var[i])) {
            Some(var)
        } else {
            None
        },
        None => None,
    }
}

/// A `name:!X` token.
pub open spec fn step_template_use(ctx: PCtx, st: PPState, token: Seq<char>, var: Seq<char>) -> Option<PPState> {
    if st.has_template == var && st.has_template.len() > 0 {
        let pname = token_name(token);
        Some(PPState {
            is_template: pname,
            params: st.params.push(ParamModel {
                name: pname,
                tl_type: "TQueryType"@,
                raw_tl_type: token,
                flag_bit: None,
                is_true_flag: false,
            }),
            ..st
        })
    } else {
        Some(fail_with(st, "Bad template param name: \""@ + token + "\" in line: "@ + ctx.line))
    }
}

/// The `flags<...::Flags>` type of a flags field.
pub open spec fn flags_type(ctx: PCtx) -> Seq<char> {
    let owner = if ctx.funcs_now {
        spec_full_type_name(ctx.cfg, ctx.name)
    } else {
        spec_full_data_name(ctx.cfg, ctx.name)
    };
    "flags<"@ + owner + "::Flags>"@
}

/// A `name:#` token.
pub open spec fn step_flags(ctx: PCtx, st: PPState, token: Seq<char>) -> Option<PPState> {
    let pname = token_name(token);
    if st.has_flags.len() > 0 && pname == st.has_flags + "2"@ {
        Some(PPState { has_flags64: pname, ..st })
    } else {
        Some(PPState {
            has_flags: pname,
            params: st.params.push(ParamModel {
                name: pname,
                tl_type: flags_type(ctx),
                raw_tl_type: token,
                flag_bit: None,
                is_true_flag: false,
            }),
            ..st
        })
    }
}

/// Push a resolved unconditional parameter; `None` where the type key
/// cannot be computed.
pub open spec fn push_plain(ctx: PCtx, st: PPState, pname: Seq<char>, ptype: Seq<char>) -> Option<PPState> {
    if param_type_key_panics(ctx, ptype) {
        None
    } else {
        Some(PPState {
            params: st.params.push(ParamModel {
                name: pname,
                tl_type: param_type_key(ctx, ptype),
                raw_tl_type: ptype,
                flag_bit: None,
                is_true_flag: false,
            }),
            ..st
        })
    }
}

/// A plain `name:Type` token.
pub open spec fn step_plain(ctx: PCtx, st: PPState, pname: Seq<char>, ty: Seq<char>) -> Option<PPState> {
    let bots_prm = spec_is_bots_only_param(ctx.comments, pname);
    let nul_vec = !bots_prm && spec_is_nullable_vector(ctx.comments, pname);
    let nul_prm = !bots_prm && !nul_vec && spec_is_nullable_param(ctx.comments, pname);
    let bots = if bots_prm { set_add(st.bots_only, pname) } else { st.bots_only };
    let st1 = PPState { bots_only: bots, notes: st.notes + spec_param_notes(ctx.comments, pname), ..st };
    if find_char(ty, '<') is Some {
        if nul_prm {
            Some(fail_with(st1, "Vector param should not be nullable: \""@ + pname + ":"@ + ty + "\" in line: "@ + ctx.line))
        } else {
            let st2 = if nul_vec { PPState { nullable_vectors: set_add(st1.nullable_vectors, pname), ..st1 } } else { st1 };
            if resolve_param_type_panics(ctx, ty) {
                None
            } else {
                match resolve_param_type(ctx, ty) {
                    Err(e) => Some(fail_with(st2, e)),
                    Ok(ptype) => push_plain(ctx, st2, pname, ptype),
                }
            }
        }
    } else if nul_vec {
        Some(fail_with(st1, "Non-vector param should not be vector-nullable: \""@ + pname + ":"@ + ty + "\" in line: "@ + ctx.line))
    } else {
        let st2 = if nul_prm { PPState { nullable_params: set_add(st1.nullable_params, pname), ..st1 } } else { st1 };
        push_plain(ctx, st2, pname, ty)
    }
}

/// Push a resolved conditional parameter.
pub open spec fn push_flagged(ctx: PCtx, st: PPState, pname: Seq<char>, flag: Seq<char>, bit: u32, ptype: Seq<char>) -> Option<PPState> {
    if flag == st.has_flags64 && bit > u32::MAX - 32 {
        None
    } else {
        let bit_val: u32 = if flag == st.has_flags64 { (bit + 32) as u32 } else { bit };
        let seen = cond_names(st.conditions).contains(pname);
        let conds = if seen { st.conditions } else { st.conditions.push((pname, bit_val)) };
        let triv = if !seen && ptype == "true"@ { set_add(st.trivial, pname) } else { st.trivial };
        if param_type_key_panics(ctx, ptype) {
            None
        } else {
            Some(PPState {
                conditions: conds,
                trivial: triv,
                params: st.params.push(ParamModel {
                    name: pname,
                    tl_type: param_type_key(ctx, ptype),
                    raw_tl_type: ptype,
                    flag_bit: Some(bit_val),
                    is_true_flag: triv.contains(pname),
                }),
                ..st
            })
        }
    }
}

/// A conditional parameter of the second flags field (`flags2.N?`) is
/// recorded with bit `N + 32`, in the second word; one of the first field
/// keeps `N`. Both the parameter and its first-seen condition carry that
/// bit, and the condition list otherwise stays as it was.
pub proof fn law_flag_bit_lands_in_its_word(ctx: PCtx, st: PPState, pname: Seq<char>, flag: Seq<char>, bit: u32, ptype: Seq<char>)
    requires
        push_flagged(ctx, st, pname, flag, bit, ptype) is Some,
    ensures
        ({
            let r = push_flagged(ctx, st, pname, flag, bit, ptype)->0;
            let expected: int = if flag == st.has_flags64 { bit + 32 } else { bit as int };
            &&& r.params.len() == st.params.len() + 1
            &&& r.params.last().name == pname
            &&& r.params.last().flag_bit matches Some(b) && b == expected
            &&& (flag == st.has_flags64 ==> r.params.last().flag_bit->0 >= 32)
            &&& (!cond_names(st.conditions).contains(pname) ==> r.conditions.len() == st.conditions.len() + 1
                    && r.conditions.last().0 == pname && r.conditions.last().1 == expected
                    && r.conditions.drop_last() == st.conditions)
            &&& (cond_names(st.conditions).contains(pname) ==> r.conditions == st.conditions)
        }),
{
    let r = push_flagged(ctx, st, pname, flag, bit, ptype)->0;
    if !cond_names(st.conditions).contains(pname) {
        assert(r.conditions.drop_last() =~= st.conditions);
    }
}

/// A `name:flags.N?Type` token.
pub open spec fn step_flagged(ctx: PCtx, st: PPState, token: Seq<char>, pname: Seq<char>, flag: Seq<char>, bit: u32, inner: Seq<char>) -> Option<PPState> {
    if flag != st.has_flags && flag != st.has_flags64 {
        Some(fail_with(st, bad_param(ctx, token)))
    } else if find_char(inner, '<') is Some {
        if resolve_param_type_panics(ctx, inner) {
            None
        } else {
            match resolve_param_type(ctx, inner) {
                Err(e) => Some(fail_with(st, e)),
                Ok(ptype) => push_flagged(ctx, st, pname, flag, bit, ptype),
            }
        }
    } else {
        push_flagged(ctx, st, pname, flag, bit, inner)
    }
}

/// One parameter token; `None` on a token that cannot be processed.
pub open spec fn param_step(ctx: PCtx, st: PPState, token: Seq<char>) -> Option<PPState> {
    if st.failed || trim(token).len() == 0 {
        Some(st)
    } else if is_braced(token) {
        match template_decl_ok(token) {
            Some(var) => Some(PPState { has_template: var, ..st }),
            None => Some(fail_with(st, bad_param(ctx, token))),
        }
    } else {
        match spec_parse_raw_param(token) {
            None => Some(fail_with(st, bad_param(ctx, token))),
            Some(rp) => match rp {
                RawParamModel::TemplateDecl { var, bound } => {
                    if bound == "Type"@ {
                        Some(PPState { has_template: var, ..st })
                    } else {
                        Some(fail_with(st, bad_param(ctx, token)))
                    }
                },
                RawParamModel::TemplateUse(var) => step_template_use(ctx, st, token, var),
                RawParamModel::Flags => step_flags(ctx, st, token),
                RawParamModel::Plain { name, ty } => step_plain(ctx, st, name, ty),
                RawParamModel::Flagged { name, flag, bit, inner } => step_flagged(ctx, st, token, name, flag, bit, inner),
            },
        }
    }
}

/// The parameter loop over all tokens.
pub open spec fn param_fold(ctx: PCtx, tokens: Seq<Seq<char>>, st: PPState) -> Option<PPState>
    decreases tokens.len(),
{
    if tokens.len() == 0 {
        Some(st)
    } else {
        match param_fold(ctx, tokens.drop_last(), st) {
            None => None,
            Some(prev) => param_step(ctx, prev, tokens.last()),
        }
    }
}

pub open spec fn pp_init(warnings: Seq<Seq<char>>) -> PPState {
    PPState {
        params: Seq::empty(),
        conditions: Seq::empty(),
        trivial: Seq::empty(),
        has_flags: Seq::empty(),
        has_flags64: Seq::empty(),
        has_template: Seq::empty(),
        is_template: Seq::empty(),
        nullable_params: Seq::empty(),
        nullable_vectors: Seq::empty(),
        bots_only: Seq::empty(),
        warnings,
        notes: Seq::empty(),
        failed: false,
    }
}

// ---------------------------------------------------------------------------
// Lines
// ---------------------------------------------------------------------------

/// State of the line loop.
#[verifier::ext_equal]
pub struct PState {
    pub types: Seq<(Seq<char>, TypeDefModel)>,
    pub funcs: Seq<(Seq<char>, TypeDefModel)>,
    pub warnings: Seq<Seq<char>>,
    pub enums: Seq<Seq<char>>,
    pub funcs_now: bool,
    pub acc: Seq<char>,
    /// Normalized constructor name -> table key of its result type.
    pub type_ctors: Seq<(Seq<char>, Seq<char>)>,
    /// Diagnostics of the comment-tag checks, in check order.
    pub notes: Seq<Seq<char>>,
}

pub open spec fn p_init() -> PState {
    PState {
        types: Seq::empty(),
        funcs: Seq::empty(),
        warnings: Seq::empty(),
        enums: Seq::empty(),
        funcs_now: false,
        acc: Seq::empty(),
        type_ctors: Seq::empty(),
        notes: Seq::empty(),
    }
}

/// First index of `key` in a table.
pub open spec fn key_index(t: Seq<(Seq<char>, TypeDefModel)>, key: Seq<char>) -> Option<int>
    decreases t.len(),
{
    if t.len() == 0 {
        None
    } else if t.last().0 == key && key_index(t.drop_last(), key) is None {
        Some(t.len() - 1)
    } else {
        key_index(t.drop_last(), key)
    }
}

/// Append a constructor to the entry for `key` (created empty when
/// missing), setting its boxed name.
pub open spec fn table_add(t: Seq<(Seq<char>, TypeDefModel)>, key: Seq<char>, boxed: Seq<char>, c: CtorModel) -> Seq<(Seq<char>, TypeDefModel)> {
    match key_index(t, key) {
        Some(i) => t.update(i, (t[i].0, TypeDefModel { boxed_name: boxed, ctors: t[i].1.ctors.push(c), ..t[i].1 })),
        None => t.push((key, TypeDefModel {
            restype: key,
            boxed_name: boxed,
            ctors: seq![c],
            with_type: false,
            with_data: false,
            nullable: false,
        })),
    }
}

/// Set `key` to `v` among pairs (first match updated, else appended).
pub open spec fn pairs_insert(pairs: Seq<(Seq<char>, Seq<char>)>, key: Seq<char>, v: Seq<char>) -> Seq<(Seq<char>, Seq<char>)>
    decreases pairs.len(),
{
    if pairs.len() == 0 {
        seq![(key, v)]
    } else if pairs[0].0 == key {
        pairs.update(0, (key, v))
    } else {
        seq![pairs[0]] + pairs_insert(pairs.drop_first(), key, v)
    }
}

/// The enum line `\t<id prefix><name> = 0x<hex>`.
pub open spec fn enum_line(cfg: CodegenScheme, name: Seq<char>, type_id: u32) -> Seq<char> {
    "\t"@ + cfg.spec_id_prefix() + name + " = 0x"@ + hex_min(type_id)
}

/// The id computed for a header, or the warning that skips it.
pub open spec fn header_type_id(cfg: CodegenScheme, h: HeaderModel) -> Result<u32, Seq<char>> {
    let id = match h.id_hex { Some(x) => x, None => Seq::empty() };
    let typeid_hex = trim_start_char(id, '0');
    let cleaned = spec_clean_line_for_crc(h.name, h.params_raw, h.result, cfg);
    let crc = crc32(encode_utf8(cleaned));
    let counted = trim_start_char(hex8(crc), '0');
    if typeid_hex.len() > 0 {
        if typeid_hex != counted {
            let key = h.name + "#"@ + typeid_hex;
            if !views(cfg.type_id_exceptions@).contains(key) {
                Err("Warning: counted "@ + counted + " mismatch with provided "@ + typeid_hex + " ("@ + key + ", "@ + cleaned + ")"@)
            } else {
                match parse_hex_u32(typeid_hex) { Some(v) => Ok(v), None => Ok(0) }
            }
        } else {
            match parse_hex_u32(typeid_hex) { Some(v) => Ok(v), None => Ok(crc) }
        }
    } else {
        Ok(crc)
    }
}

/// The constructor built from a finished parameter loop.
pub open spec fn make_ctor(
    name: Seq<char>, written_name: Seq<char>, class_name: Seq<char>, bare_name: Seq<char>,
    full_name: Seq<char>, full_data_name: Seq<char>, type_id: u32, pp: PPState,
) -> CtorModel {
    CtorModel {
        name,
        tl_name: written_name,
        alias_name: class_name,
        bare_name,
        full_name,
        full_data_name,
        type_id,
        params: pp.params,
        has_flags: pp.has_flags.len() > 0,
        has_flags64: pp.has_flags64.len() > 0,
        flags_name: pp.has_flags,
        flags64_name: pp.has_flags64,
        template_param: pp.is_template,
        template_var: pp.has_template,
        conditions: pp.conditions,
        trivial_conditions: pp.trivial,
        is_template: pp.is_template.len() > 0,
        has_template: pp.has_template.len() > 0,
        nullable_params: pp.nullable_params,
        nullable_vectors: pp.nullable_vectors,
        bots_only_params: pp.bots_only,
    }
}

/// What a constructor line does once its header parsed and its comments
/// were taken (`st.acc` already cleared).
pub open spec fn ctor_line(cfg: CodegenScheme, st: PState, line: Seq<char>, h: HeaderModel, comments: Seq<char>) -> Option<PState> {
    let st = PState { notes: st.notes + spec_line_notes(comments), ..st };
    if spec_is_bots_only_line(comments) || spec_is_mobile_only_line(comments) {
        Some(st)
    } else {
        let written_name = h.name;
        let renamed = match lookup(pair_views(cfg.renamed_types@), written_name) { Some(n) => n, None => written_name };
        match spec_class_name(renamed) {
            None => None,
            Some((class_name, name)) => match header_type_id(cfg, h) {
                Err(w) => Some(PState { warnings: st.warnings.push(w), ..st }),
                Ok(type_id) => match spec_normalize_result(cfg, st.types, st.funcs, h.result) {
                    Err(e) => Some(PState { warnings: st.warnings.push(e), ..st }),
                    Ok((res_key, boxed_alias)) => {
                        if bare_name_panics(name) {
                            None
                        } else {
                            let bare_name = match spec_normalized_bare_name(name) { Ok(b) => b, Err(_) => name };
                            let full_name = spec_full_type_name(cfg, name);
                            let full_data_name = spec_full_data_name(cfg, name);
                            let ctx = PCtx {
                                cfg,
                                types: st.types,
                                funcs: st.funcs,
                                type_ctors: st.type_ctors,
                                comments,
                                line,
                                name,
                                funcs_now: st.funcs_now,
                                read_write: cfg.spec_read_write_section(),
                            };
                            let tokens = split_char(trim(h.params_raw), ' ');
                            match param_fold(ctx, tokens, pp_init(st.warnings)) {
                                None => None,
                                Some(pp) => {
                                    let enums = st.enums.push(enum_line(cfg, name, type_id));
                                    let st1 = PState { warnings: pp.warnings, enums, notes: st.notes + pp.notes, ..st };
                                    if pp.failed {
                                        Some(st1)
                                    } else if pp.is_template.len() == 0 && res_key == "X"@ {
                                        Some(PState { warnings: st1.warnings.push("Bad response type \"X\" in \""@ + name + "\" in line: "@ + line), ..st1 })
                                    } else {
                                        let c = make_ctor(name, written_name, class_name, bare_name, full_name, full_data_name, type_id, pp);
                                        if st.funcs_now {
                                            Some(PState { funcs: table_add(st1.funcs, res_key, boxed_alias, c), ..st1 })
                                        } else if c.is_template {
                                            Some(PState { warnings: st1.warnings.push("Template types not allowed: \""@ + res_key + "\" in line: "@ + line), ..st1 })
                                        } else {
                                            Some(PState {
                                                types: table_add(st1.types, res_key, boxed_alias, c),
                                                type_ctors: pairs_insert(st1.type_ctors, name, res_key),
                                                ..st1
                                            })
                                        }
                                    }
                                },
                            }
                        }
                    },
                },
            },
        }
    }
}

/// One input line; `None` on a line that cannot be processed.
pub open spec fn line_step(cfg: CodegenScheme, st: PState, raw: Seq<char>) -> Option<PState> {
    let split = spec_comment_split(raw);
    let line = match split { Some((code, _)) => code, None => raw };
    let comment = match split { Some((_, c)) => c, None => Seq::empty() };
    if contains(line, "---functions---"@) {
        Some(PState { funcs_now: true, ..st })
    } else if contains(line, "---types---"@) {
        Some(PState { funcs_now: false, ..st })
    } else if trim(line).len() == 0 {
        if split is None {
            Some(PState { acc: Seq::empty(), ..st })
        } else if comment.len() > 0 {
            Some(PState { acc: st.acc + " "@ + comment, ..st })
        } else {
            Some(st)
        }
    } else if views(cfg.skip@).contains(trim(line)) {
        Some(st)
    } else {
        match spec_parse_ctor_header(line) {
            None => Some(PState { warnings: st.warnings.push("Bad line found: "@ + line), ..st }),
            Some(h) => ctor_line(cfg, PState { acc: Seq::empty(), ..st }, line, h, st.acc),
        }
    }
}

/// The line loop.
pub open spec fn line_fold(cfg: CodegenScheme, lines: Seq<Seq<char>>) -> Option<PState>
    decreases lines.len(),
{
    if lines.len() == 0 {
        Some(p_init())
    } else {
        match line_fold(cfg, lines.drop_last()) {
            None => None,
            Some(prev) => line_step(cfg, prev, lines.last()),
        }
    }
}

// ---------------------------------------------------------------------------
// Post-pass
// ---------------------------------------------------------------------------

/// A constructor stores some parameter (not a `true` flag, not bots-only).
pub open spec fn ctor_has_stored(c: CtorModel) -> bool {
    exists|j: int| 0 <= j < c.params.len()
        && !c.trivial_conditions.contains(#[trigger] c.params[j].name)
        && !c.bots_only_params.contains(c.params[j].name)
}

pub open spec fn def_has_data(d: TypeDefModel) -> bool {
    exists|k: int| 0 <= k < d.ctors.len() && ctor_has_stored(#[trigger] d.ctors[k])
}

/// Derived flags of one table entry.
pub open spec fn finish_entry(cfg: CodegenScheme, e: (Seq<char>, TypeDefModel)) -> (Seq<char>, TypeDefModel) {
    (e.0, TypeDefModel {
        with_type: e.1.ctors.len() > 1,
        with_data: def_has_data(e.1),
        nullable: views(cfg.nullable@).contains(e.0),
        ..e.1
    })
}

pub open spec fn finish_table(cfg: CodegenScheme, t: Seq<(Seq<char>, TypeDefModel)>) -> Seq<(Seq<char>, TypeDefModel)> {
    t.map_values(|e: (Seq<char>, TypeDefModel)| finish_entry(cfg, e))
}

// ---------------------------------------------------------------------------
// Laws
// ---------------------------------------------------------------------------

proof fn lemma_key_index(t: Seq<(Seq<char>, TypeDefModel)>, key: Seq<char>)
    ensures
        match key_index(t, key) {
            Some(i) => 0 <= i < t.len() && t[i].0 == key && forall|j: int| 0 <= j < i ==> t[j].0 != key,
            None => forall|j: int| 0 <= j < t.len() ==> t[j].0 != key,
        },
    decreases t.len(),
{
    if t.len() > 0 {
        lemma_key_index(t.drop_last(), key);
        assert forall|j: int| 0 <= j < t.len() - 1 implies t.drop_last()[j] == t[j] by {}
    }
}

/// Tables keep result types in first-seen order: adding a constructor keeps
/// every existing entry at its place (only the entry for its result type
/// gains the constructor), and a new result type is appended with just that
/// constructor.
pub proof fn law_table_add_first_seen_order(t: Seq<(Seq<char>, TypeDefModel)>, key: Seq<char>, boxed: Seq<char>, c: CtorModel)
    ensures
        ({
            let r = table_add(t, key, boxed, c);
            &&& forall|i: int| 0 <= i < t.len() ==> (#[trigger] r[i]).0 == t[i].0
            &&& forall|i: int| 0 <= i < t.len() && t[i].0 != key ==> #[trigger] r[i] == t[i]
            &&& (exists|i: int| 0 <= i < t.len() && t[i].0 == key) ==> {
                &&& r.len() == t.len()
                &&& exists|i: int| 0 <= i < t.len() && t[i].0 == key && (#[trigger] r[i]).1.ctors == t[i].1.ctors.push(c)
            }
            &&& !(exists|i: int| 0 <= i < t.len() && t[i].0 == key) ==> {
                &&& r.len() == t.len() + 1
                &&& r[t.len() as int].0 == key
                &&& r[t.len() as int].1.ctors == seq![c]
            }
        }),
{
    lemma_key_index(t, key);
    let r = table_add(t, key, boxed, c);
    match key_index(t, key) {
        Some(k) => {
            assert(r[k].1.ctors == t[k].1.ctors.push(c));
        },
        None => {},
    }
}

/// A constructor line whose provided id mismatches the computed one (and is
/// no listed exception) changes no table and enum list: it only adds the
/// mismatch warning (after the diagnostics of its comment-tag checks).
pub proof fn law_mismatch_skips_constructor(cfg: CodegenScheme, st: PState, line: Seq<char>, h: HeaderModel, comments: Seq<char>)
    requires
        !spec_is_bots_only_line(comments),
        !spec_is_mobile_only_line(comments),
        spec_class_name(match lookup(pair_views(cfg.renamed_types@), h.name) { Some(n) => n, None => h.name }) is Some,
        header_type_id(cfg, h) is Err,
    ensures
        match header_type_id(cfg, h) {
            Err(w) => ctor_line(cfg, st, line, h, comments)
                == Some(PState { warnings: st.warnings.push(w), notes: st.notes + spec_line_notes(comments), ..st }),
            Ok(_) => true,
        },
{
}

/// A nonblank line that is no section marker, no listed skip and no
/// constructor declaration is reported as a bad line and changes nothing
/// else.
pub proof fn law_bad_line_reported(cfg: CodegenScheme, st: PState, raw: Seq<char>)
    requires
        spec_comment_split(raw) is None,
        !contains(raw, "---functions---"@),
        !contains(raw, "---types---"@),
        trim(raw).len() > 0,
        !views(cfg.skip@).contains(trim(raw)),
        spec_parse_ctor_header(raw) is None,
    ensures
        line_step(cfg, st, raw) == Some(PState { warnings: st.warnings.push("Bad line found: "@ + raw), ..st }),
{
}

} // verus!
