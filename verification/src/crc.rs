//! CRC-32 type ids: the canonical declaration line a constructor id is
//! computed over, the IEEE CRC-32 of its UTF-8 bytes, and the check of a
//! provided `#hexid` against it.

use vstd::prelude::*;
use vstd::utf8::encode_utf8;
use crate::config::CodegenScheme;
use crate::parse::{Class, run, run_exec};
use crate::text::{
    at, chars_of, matches_at, contains_str, drop_chars, drop_chars_exec, eq_ignore_ascii_case,
    eq_ignore_ascii_case_exec, hex8, hex8_exec, map_char, map_char_exec, pair_views,
    parse_hex_u32, parse_hex_u32_exec, push_chars, replace, replace_exec, slice_copy,
    string_of, trim, trim_start_char, trim_start_char_exec, trimmed, views, hex_digit, hex_value,
    hex_digits_value, is_hex_any,
};

verus! {

/// One bit step of the reflected IEEE CRC-32 (polynomial `0xEDB88320`).
pub open spec fn crc_bit(c: u32) -> u32 {
    if c & 1 == 1 { (c >> 1u32) ^ 0xEDB8_8320u32 } else { c >> 1u32 }
}

/// One byte step: xor the byte in, then eight bit steps.
pub open spec fn crc_byte(c: u32, b: u8) -> u32 {
    let x = c ^ (b as u32);
    crc_bit(crc_bit(crc_bit(crc_bit(crc_bit(crc_bit(crc_bit(crc_bit(x))))))))
}

/// Register after feeding `bytes`, starting from `0xFFFFFFFF`.
pub open spec fn crc_state(bytes: Seq<u8>) -> u32
    decreases bytes.len(),
{
    if bytes.len() == 0 {
        0xFFFF_FFFFu32
    } else {
        crc_byte(crc_state(bytes.drop_last()), bytes.last())
    }
}

/// CRC-32 (IEEE 802.3): final register inverted.
pub open spec fn crc32(bytes: Seq<u8>) -> u32 {
    crc_state(bytes) ^ 0xFFFF_FFFFu32
}

/// One match of ` [a-zA-Z0-9_]+:flags2?\.[0-9]+\?true` starting at `i`: its
/// length.
pub open spec fn true_flag_at(s: Seq<char>, i: int) -> Option<int> {
    let w = run(s, i + 1, Class::Ident);
    let k = i + 1 + w;
    let m = k + 6;
    let q = if m < s.len() && s[m] == '2' { m + 1 } else { m };
    let d = run(s, q + 1, Class::Digit);
    if 0 <= i < s.len() && s[i] == ' ' && w > 0 && k < s.len() && s[k] == ':'
        && matches_at(s, "flags"@, k + 1) && q < s.len() && s[q] == '.' && d > 0
        && matches_at(s, "?true"@, q + 1 + d) {
        Some(q + 1 + d + 5 - i)
    } else {
        None
    }
}

/// `replace_all` of the optional-true pattern by nothing, scanning from `i`.
pub open spec fn drop_true_flags_from(s: Seq<char>, i: int) -> Seq<char>
    decreases s.len() - i,
{
    if i < 0 || i >= s.len() {
        Seq::empty()
    } else {
        match true_flag_at(s, i) {
            Some(n) => if 0 < n && i + n <= s.len() { drop_true_flags_from(s, i + n) } else { Seq::empty() },
            None => seq![s[i]] + drop_true_flags_from(s, i + 1),
        }
    }
}

/// Length of the optional-true parameter match at `i`, if any.
fn true_flag_at_exec(s: &[char], i: usize) -> (r: Option<usize>)
    requires
        i < s@.len(),
    ensures
        r matches Some(n) ==> true_flag_at(s@, i as int) == Some(n as int) && 0 < n && i + n <= s@.len(),
        r is None ==> true_flag_at(s@, i as int) is None,
{
    proof { reveal_strlit("flags"); reveal_strlit("?true"); }
    let len = s.len();
    if s[i] != ' ' {
        return None;
    }
    let w = run_exec(s, i + 1, &Class::Ident);
    let k = i + 1 + w;
    if !(w > 0 && k < len && s[k] == ':') {
        return None;
    }
    let flags = chars_of("flags");
    if !at(s, &flags, k + 1) {
        return None;
    }
    let m = k + 6;
    let q = if m < len && s[m] == '2' { m + 1 } else { m };
    if !(q < len && s[q] == '.') {
        return None;
    }
    let d = run_exec(s, q + 1, &Class::Digit);
    if d == 0 {
        return None;
    }
    let tail = chars_of("?true");
    if !at(s, &tail, q + 1 + d) {
        return None;
    }
    Some(q + 1 + d + 5 - i)
}

/// Remove every optional-true parameter match (left to right).
pub fn drop_true_flags(s: &[char]) -> (r: Vec<char>)
    ensures
        r@ == drop_true_flags_from(s@, 0),
{
    let mut out: Vec<char> = Vec::new();
    let mut i: usize = 0;
    while i < s.len()
        invariant
            i <= s@.len(),
            out@ + drop_true_flags_from(s@, i as int) == drop_true_flags_from(s@, 0),
        decreases s.len() - i,
    {
        match true_flag_at_exec(s, i) {
            Some(n) => {
                i = i + n;
            },
            None => {
                out.push(s[i]);
                assert(out@ + drop_true_flags_from(s@, i + 1) =~= out@.drop_last() + drop_true_flags_from(s@, i as int));
                i = i + 1;
            },
        }
    }
    assert(out@ =~= out@ + drop_true_flags_from(s@, i as int));
    out
}

/// Applies each `(from, to)` synonym in turn with `str::replace`.
pub open spec fn apply_synonyms(line: Seq<char>, syns: Seq<(Seq<char>, Seq<char>)>) -> Seq<char>
    decreases syns.len(),
{
    if syns.len() == 0 {
        line
    } else {
        let prev = apply_synonyms(line, syns.drop_last());
        replace(prev, syns.last().0, syns.last().1)
    }
}

/// The canonical line: optional-true parameters (` name:flags.N?true`)
/// removed, synonyms applied, `<`/`>` turned into spaces, `{`/`}` removed.
pub open spec fn spec_clean_line(declaration: Seq<char>, scheme: CodegenScheme) -> Seq<char> {
    let kept = drop_true_flags_from(declaration, 0);
    let syn = apply_synonyms(kept, pair_views(scheme.synonyms@));
    drop_chars(map_char(map_char(syn, '<', ' '), '>', ' '), '{', '}')
}

/// Applies the synonym table to `line` (executable).
pub fn apply_synonyms_exec(line: &[char], syns: &Vec<(String, String)>) -> (r: Vec<char>)
    ensures
        r@ == apply_synonyms(line@, pair_views(syns@)),
{
    let mut cur = slice_copy(line, 0, line.len());
    assert(line@.subrange(0, line@.len() as int) =~= line@);
    let mut i: usize = 0;
    while i < syns.len()
        invariant
            i <= syns@.len(),
            cur@ == apply_synonyms(line@, pair_views(syns@).take(i as int)),
        decreases syns.len() - i,
    {
        let from = chars_of(syns[i].0.as_str());
        let to = chars_of(syns[i].1.as_str());
        cur = replace_exec(&cur, &from, &to);
        proof {
            let ps = pair_views(syns@);
            assert(ps.take(i + 1).drop_last() =~= ps.take(i as int));
            assert(ps.take(i + 1).last() == ps[i as int]);
        }
        i += 1;
    }
    assert(pair_views(syns@).take(syns@.len() as int) =~= pair_views(syns@));
    cur
}

/// Rebuild the canonical line a type id is computed over: optional-true
/// parameters (` name:flags.N?true`) removed, synonyms applied, `<`/`>`
/// turned into spaces, `{`/`}` removed.
pub fn clean_line(declaration: &str, scheme: &CodegenScheme) -> (r: String)
    ensures
        r@ == spec_clean_line(declaration@, *scheme),
{
    let d = chars_of(declaration);
    let kept = drop_true_flags(&d);
    let syn = apply_synonyms_exec(&kept, &scheme.synonyms);
    let a = map_char_exec(&syn, '<', ' ');
    let b = map_char_exec(&a, '>', ' ');
    let c = drop_chars_exec(&b, '{', '}');
    string_of(&c)
}

/// `crc32fast::hash` over the UTF-8 bytes of `cleaned`: the IEEE CRC-32
/// checksum, as the crate documents it.
pub fn type_id(cleaned: &str) -> (r: u32)
    ensures
        r == crc32(encode_utf8(cleaned@)),
{
    hash_bytes(cleaned.as_bytes())
}

/// `crc32fast::hash`: the IEEE CRC-32 checksum of `buf`.
#[verifier::external_body]
fn hash_bytes(buf: &[u8]) -> (r: u32)
    ensures
        r == crc32(buf@),
{
    crc32fast::hash(buf)
}

/// Eight lowercase hex digits, zero padded.
pub fn format_id(id: u32) -> (r: String)
    ensures
        r@ == hex8(id),
{
    let v = hex8_exec(id);
    string_of(&v)
}

/// The warning pushed when a provided id does not match the computed one.
pub open spec fn spec_mismatch_warning(declaration: Seq<char>, hex: Seq<char>, expected: Seq<char>) -> Seq<char> {
    "Warning: type id mismatch for "@ + declaration + ": provided #"@ + hex + ", computed #"@ + expected
}

/// The id to use for `declaration`, or `None` when it must be skipped.
pub open spec fn spec_verify_or_compute(declaration: Seq<char>, provided: Option<Seq<char>>, scheme: CodegenScheme) -> Option<u32> {
    let computed = crc32(encode_utf8(spec_clean_line(declaration, scheme)));
    match provided {
        None => Some(computed),
        Some(hex) => {
            if eq_ignore_ascii_case(trim_start_char(hex, '0'), trim_start_char(hex8(computed), '0')) {
                Some(computed)
            } else if views(scheme.type_id_exceptions@).contains(trim(declaration)) {
                parse_hex_u32(hex)
            } else {
                None
            }
        },
    }
}

/// The provided id mismatches and the line is no exception: a warning is
/// pushed.
pub open spec fn spec_verify_warns(declaration: Seq<char>, provided: Option<Seq<char>>, scheme: CodegenScheme) -> bool {
    let computed = crc32(encode_utf8(spec_clean_line(declaration, scheme)));
    match provided {
        None => false,
        Some(hex) => !eq_ignore_ascii_case(trim_start_char(hex, '0'), trim_start_char(hex8(computed), '0'))
            && !views(scheme.type_id_exceptions@).contains(trim(declaration)),
    }
}

/// Compare a provided `#hexid` against the computed one (leading zeros and
/// case ignored), honoring `type_id_exceptions`. Returns the id to use, or
/// `None` when the constructor must be skipped, in which case a warning is
/// pushed.
pub fn verify_or_compute(
    declaration: &str,
    provided_hex: Option<&str>,
    scheme: &CodegenScheme,
    warnings: &mut Vec<String>,
) -> (r: Option<u32>)
    ensures
        r == spec_verify_or_compute(declaration@, match provided_hex { Some(h) => Some(h@), None => None }, *scheme),
        spec_verify_warns(declaration@, match provided_hex { Some(h) => Some(h@), None => None }, *scheme) ==> {
            let hex = provided_hex.unwrap()@;
            let computed = crc32(encode_utf8(spec_clean_line(declaration@, *scheme)));
            final(warnings)@.len() == old(warnings)@.len() + 1
                && final(warnings)@.take(old(warnings)@.len() as int) == old(warnings)@
                && final(warnings)@.last()@ == spec_mismatch_warning(declaration@, hex, hex8(computed))
        },
        !spec_verify_warns(declaration@, match provided_hex { Some(h) => Some(h@), None => None }, *scheme)
            ==> final(warnings)@ == old(warnings)@,
{
    let cleaned = clean_line(declaration, scheme);
    let computed = type_id(cleaned.as_str());
    match provided_hex {
        None => Some(computed),
        Some(hex) => {
            let hv = chars_of(hex);
            let stripped = trim_start_char_exec(&hv, '0');
            let expected = hex8_exec(computed);
            let expected_stripped = trim_start_char_exec(&expected, '0');
            if eq_ignore_ascii_case_exec(&stripped, &expected_stripped) {
                Some(computed)
            } else {
                let dv = chars_of(declaration);
                let t = trimmed(&dv);
                let ts = string_of(&t);
                if contains_str(&scheme.type_id_exceptions, ts.as_str()) {
                    parse_hex_u32_exec(&hv)
                } else {
                    let mut msg = String::from_str("Warning: type id mismatch for ");
                    msg.append(declaration);
                    msg.append(": provided #");
                    msg.append(hex);
                    msg.append(", computed #");
                    push_chars(&mut msg, &expected);
                    warnings.push(msg);
                    None
                }
            }
        },
    }
}


/// A declaration carrying its own computed id (as `format_id` writes it)
/// or no id at all gets the computed id, with no warning.
pub proof fn law_computed_id_accepted(declaration: Seq<char>, scheme: CodegenScheme)
    ensures
        ({
            let computed = crc32(encode_utf8(spec_clean_line(declaration, scheme)));
            &&& spec_verify_or_compute(declaration, Some(hex8(computed)), scheme) == Some(computed)
            &&& !spec_verify_warns(declaration, Some(hex8(computed)), scheme)
            &&& spec_verify_or_compute(declaration, None, scheme) == Some(computed)
            &&& !spec_verify_warns(declaration, None, scheme)
        }),
{
}

/// `format_id` always writes exactly eight lowercase hex digits.
pub proof fn law_format_id_shape(id: u32)
    ensures
        hex8(id).len() == 8,
        forall|i: int| 0 <= i < 8 ==> crate::text::is_hex_lower(#[trigger] hex8(id)[i]),
{
    assert forall|i: int| 0 <= i < 8 implies crate::text::is_hex_lower(#[trigger] hex8(id)[i]) by {
        let sh: u32 = (28 - 4 * i) as u32;
        assert((id >> sh) & 0xf < 16) by (bit_vector);
    }
}


/// Each digit `hex8` writes reads back as the nibble it was written from.
proof fn lemma_hex8_digit(id: u32, i: int)
    requires
        0 <= i < 8,
    ensures
        is_hex_any(hex8(id)[i]),
        hex8(id)[i] != '+',
        hex_value(hex8(id)[i]) == (id >> ((28 - 4 * i) as u32)) & 0xf,
{
    let sh: u32 = (28 - 4 * i) as u32;
    let d: u32 = (id >> sh) & 0xf;
    assert(d < 16) by (bit_vector)
        requires d == (id >> sh) & 0xf;
    assert(hex8(id)[i] == hex_digit(d));
}

/// The first `k` digits of `hex8(id)` read as the top `4 * k` bits of `id`.
proof fn lemma_hex8_prefix_value(id: u32, k: int)
    requires
        1 <= k <= 8,
    ensures
        hex_digits_value(hex8(id).take(k)) == id >> ((32 - 4 * k) as u32),
    decreases k,
{
    let s = hex8(id);
    let sh: u32 = (32 - 4 * k) as u32;
    lemma_hex8_digit(id, k - 1);
    assert(s.take(k).drop_last() =~= s.take(k - 1));
    assert(s.take(k).last() == s[k - 1]);
    assert(hex_digits_value(s.take(k)) == hex_digits_value(s.take(k - 1)) * 16 + hex_value(s[k - 1]));
    let lo: u32 = (28 - 4 * (k - 1)) as u32;
    assert(lo == sh);
    assert(hex_value(s[k - 1]) == (id >> sh) & 0xf);
    if k == 1 {
        assert(s.take(0) =~= Seq::<char>::empty());
        assert((id >> 28u32) & 0xf == id >> 28u32) by (bit_vector);
    } else {
        lemma_hex8_prefix_value(id, k - 1);
        let hi: u32 = (sh + 4) as u32;
        assert(((32 - 4 * (k - 1)) as u32) == hi);
        assert(hex_digits_value(s.take(k - 1)) == id >> hi);
        assert((id >> hi) * 16 + ((id >> sh) & 0xf) == id >> sh) by (bit_vector)
            requires sh <= 28, hi == sh + 4;
    }
}

/// `format_id` round-trips: reading its text back as hex gives the id.
pub proof fn law_format_id_round_trip(id: u32)
    ensures
        parse_hex_u32(hex8(id)) == Some(id),
{
    let s = hex8(id);
    lemma_hex8_digit(id, 0);
    assert forall|i: int| 0 <= i < s.len() implies is_hex_any(#[trigger] s[i]) by {
        lemma_hex8_digit(id, i);
    }
    lemma_hex8_prefix_value(id, 8);
    assert(s.take(8) =~= s);
    assert(id >> 0u32 == id) by (bit_vector);
}


/// The canonical line `clean_line` builds holds no `<` or `>`.
pub proof fn law_clean_line_has_no_angle_brackets(declaration: Seq<char>, scheme: CodegenScheme)
    ensures
        forall|i: int| 0 <= i < spec_clean_line(declaration, scheme).len() ==>
            spec_clean_line(declaration, scheme)[i] != '<' && spec_clean_line(declaration, scheme)[i] != '>',
{
    let kept = drop_true_flags_from(declaration, 0);
    let syn = apply_synonyms(kept, pair_views(scheme.synonyms@));
    let a = map_char(syn, '<', ' ');
    crate::text::lemma_map_char_clears(syn, '<', ' ');
    crate::text::lemma_map_char_keeps_absent(a, '>', ' ', '<');
    crate::text::lemma_map_char_clears(a, '>', ' ');
    let b = map_char(a, '>', ' ');
    crate::text::lemma_drop_chars_keeps_absent(b, '{', '}', '<');
    crate::text::lemma_drop_chars_keeps_absent(b, '{', '}', '>');
    let r = spec_clean_line(declaration, scheme);
    assert forall|i: int| 0 <= i < r.len() implies r[i] != '<' && r[i] != '>' by {
        if r[i] == '<' { assert(r.contains('<')); }
        if r[i] == '>' { assert(r.contains('>')); }
    }
}

} // verus!
