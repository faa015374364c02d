//! Line-level input handling: splitting `.tl` texts into lines, the
//! `// LAYER <n>` marker (last one wins), the `---types---` sentinel, and the
//! comment-tag predicates (bots-only, mobile-only, nullable).

use vstd::prelude::*;
use vstd::utf8::encode_utf8;
use crate::text::{
    chars_of, contains, ends_with, ends_with_exec, extend, extend_str, find, find_char,
    find_char_exec, find_exec, lemma_find_from, slice_copy, split_char, split_char_exec,
    starts_with, starts_with_exec, string_of, trim, trimmed, is_ascii_digit, digit, views,
    str_eq,
};

verus! {

/// Result of reading the input `.tl` files.
pub struct TlInputs {
    /// All lines with the `---types---` sentinel prepended.
    pub lines: Vec<String>,
    /// Last `// LAYER <n>` seen.
    pub layer: u32,
    /// Basenames of the input files, in order.
    pub names: Vec<String>,
}

// ---------------------------------------------------------------------------
// Lines
// ---------------------------------------------------------------------------

/// `s` without one trailing `\r`.
pub open spec fn strip_cr(s: Seq<char>) -> Seq<char> {
    if s.len() > 0 && s.last() == '\r' { s.drop_last() } else { s }
}

/// `str::lines`: split at `\n`; a `\r` right before a `\n` is dropped; a
/// final line ending does not start an extra (empty) line.
pub open spec fn lines_of(s: Seq<char>) -> Seq<Seq<char>> {
    let pieces = split_char(s, '\n');
    let body = pieces.drop_last().map_values(|p: Seq<char>| strip_cr(p));
    if pieces.last().len() == 0 { body } else { body.push(pieces.last()) }
}

pub proof fn lemma_split_nonempty(s: Seq<char>, c: char)
    ensures
        split_char(s, c).len() > 0,
    decreases s.len(),
{
    match find_char(s, c) {
        Some(i) => if 0 <= i < s.len() {
            lemma_split_nonempty(s.skip(i + 1), c);
        },
        None => {},
    }
}

/// `str::lines` (executable).
pub fn lines_exec(s: &[char]) -> (r: Vec<Vec<char>>)
    ensures
        r@.map_values(|v: Vec<char>| v@) == lines_of(s@),
{
    let pieces = split_char_exec(s, '\n');
    proof { lemma_split_nonempty(s@, '\n'); }
    let ghost pv = pieces@.map_values(|v: Vec<char>| v@);
    assert(pv.len() == pieces@.len());
    let n = pieces.len();
    let mut r: Vec<Vec<char>> = Vec::new();
    let mut i: usize = 0;
    while i + 1 < n
        invariant
            n == pieces@.len(),
            n > 0,
            i < n,
            pv == pieces@.map_values(|v: Vec<char>| v@),
            pv == split_char(s@, '\n'),
            r@.map_values(|v: Vec<char>| v@) == pv.take(i as int).map_values(|p: Seq<char>| strip_cr(p)),
        decreases n - i,
    {
        let p = &pieces[i];
        let q = if p.len() > 0 && p[p.len() - 1] == '\r' { slice_copy(p, 0, p.len() - 1) } else { slice_copy(p, 0, p.len()) };
        proof {
            assert(pv[i as int] == p@);
            if p@.len() > 0 && p@.last() == '\r' {
                assert(q@ =~= p@.drop_last());
            } else {
                assert(q@ =~= p@);
            }
            assert(q@ == strip_cr(pv[i as int]));
        }
        r.push(q);
        proof {
            assert(pv.take(i + 1) =~= pv.take(i as int).push(pv[i as int]));
            assert(r@.map_values(|v: Vec<char>| v@) =~= r@.drop_last().map_values(|v: Vec<char>| v@).push(q@));
            assert(pv.take(i + 1).map_values(|p: Seq<char>| strip_cr(p)) =~= pv.take(i as int).map_values(|p: Seq<char>| strip_cr(p)).push(strip_cr(pv[i as int])));
            assert(r@.map_values(|v: Vec<char>| v@) =~= pv.take(i + 1).map_values(|p: Seq<char>| strip_cr(p)));
        }
        i += 1;
    }
    let last = &pieces[n - 1];
    assert(pv.take(n - 1) =~= pv.drop_last());
    assert(pv.last() == last@);
    if last.len() > 0 {
        let l = slice_copy(last, 0, last.len());
        assert(l@ =~= last@);
        r.push(l);
        assert(r@.map_values(|v: Vec<char>| v@) =~= r@.drop_last().map_values(|v: Vec<char>| v@).push(l@));
    }
    r
}

// ---------------------------------------------------------------------------
// LAYER
// ---------------------------------------------------------------------------

/// Value of a sequence of decimal digits.
pub open spec fn dec_value(s: Seq<char>) -> int
    decreases s.len(),
{
    if s.len() == 0 { 0 } else { dec_value(s.drop_last()) * 10 + ((s.last() as u32) - ('0' as u32)) }
}

pub open spec fn all_digits(d: Seq<char>) -> bool {
    forall|i: int| 0 <= i < d.len() ==> is_ascii_digit(#[trigger] d[i])
}

pub open spec fn dec_body(s: Seq<char>) -> Seq<char> {
    if s.len() > 0 && s[0] == '+' { s.drop_first() } else { s }
}

/// `str::parse::<u32>().ok()`: an optional `+`, then at least one decimal
/// digit; `None` on anything else or on overflow.
pub open spec fn parse_u32(s: Seq<char>) -> Option<u32> {
    let d = dec_body(s);
    if d.len() == 0 || !all_digits(d) || dec_value(d) > u32::MAX {
        None
    } else {
        Some(dec_value(d) as u32)
    }
}

pub proof fn lemma_dec_value_mono(d: Seq<char>, k: int)
    requires
        0 <= k <= d.len(),
        all_digits(d),
    ensures
        dec_value(d) >= dec_value(d.take(k)) >= 0,
    decreases d.len() - k,
{
    if k < d.len() {
        lemma_dec_value_mono(d, k + 1);
        assert(d.take(k + 1).drop_last() =~= d.take(k));
        assert(d.take(k + 1).last() == d[k]);
        assert(is_ascii_digit(d[k]));
    } else {
        assert(d.take(k) =~= d);
        lemma_dec_nonneg(d);
    }
}

pub proof fn lemma_dec_nonneg(d: Seq<char>)
    requires
        all_digits(d),
    ensures
        dec_value(d) >= 0,
    decreases d.len(),
{
    if d.len() > 0 {
        assert(all_digits(d.drop_last())) by {
            assert forall|i: int| 0 <= i < d.drop_last().len() implies is_ascii_digit(#[trigger] d.drop_last()[i]) by {
                assert(d.drop_last()[i] == d[i]);
            }
        }
        lemma_dec_nonneg(d.drop_last());
        assert(is_ascii_digit(d[d.len() - 1]));
    }
}

pub fn parse_u32_exec(s: &[char]) -> (r: Option<u32>)
    ensures
        r == parse_u32(s@),
{
    let start: usize = if s.len() > 0 && s[0] == '+' { 1 } else { 0 };
    let ghost d = dec_body(s@);
    assert(d =~= s@.skip(start as int));
    if start >= s.len() {
        return None;
    }
    let mut v: u64 = 0;
    let mut i = start;
    while i < s.len()
        invariant
            start <= i <= s@.len(),
            start < s@.len(),
            d == s@.skip(start as int),
            d == dec_body(s@),
            forall|j: int| 0 <= j < i - start ==> is_ascii_digit(#[trigger] d[j]),
            v as int == dec_value(d.take(i - start)),
            v <= u32::MAX,
        decreases s.len() - i,
    {
        let c = s[i];
        assert(d[i - start] == c);
        if !digit(c) {
            assert(!all_digits(d));
            return None;
        }
        let dv = (c as u32 - 48) as u64;
        assert(d.take(i + 1 - start).drop_last() =~= d.take(i - start));
        assert(d.take(i + 1 - start).last() == c);
        let nv = v * 10 + dv;
        if nv > 0xffff_ffff {
            proof {
                if all_digits(d) {
                    lemma_dec_value_mono(d, i + 1 - start);
                }
            }
            return None;
        }
        v = nv;
        i += 1;
    }
    assert(d.take(i - start) =~= d);
    Some(v as u32)
}

/// `// LAYER <n>` (surrounding whitespace allowed): the layer number.
pub open spec fn spec_parse_layer(line: Seq<char>) -> Option<u32> {
    let t = trim(line);
    if !starts_with(t, "//"@) {
        None
    } else {
        let rest = trim(t.skip(2));
        if !starts_with(rest, "LAYER"@) {
            None
        } else {
            parse_u32(trim(rest.skip(5)))
        }
    }
}

/// `// LAYER <n>`: the layer number of a layer marker line.
pub fn parse_layer(line: &[char]) -> (r: Option<u32>)
    ensures
        r == spec_parse_layer(line@),
{
    proof { reveal_strlit("//"); reveal_strlit("LAYER"); }
    let t = trimmed(line);
    let slashes = chars_of("//");
    if !starts_with_exec(&t, &slashes) {
        return None;
    }
    let after = slice_copy(&t, 2, t.len());
    let rest = trimmed(&after);
    let layer = chars_of("LAYER");
    if !starts_with_exec(&rest, &layer) {
        return None;
    }
    let after2 = slice_copy(&rest, 5, rest.len());
    let num = trimmed(&after2);
    parse_u32_exec(&num)
}

/// The lines and last layer of one file's text, continuing from `acc`.
pub open spec fn fold_lines(lines: Seq<Seq<char>>, acc: (Seq<Seq<char>>, u32)) -> (Seq<Seq<char>>, u32)
    decreases lines.len(),
{
    if lines.len() == 0 {
        acc
    } else {
        let prev = fold_lines(lines.drop_last(), acc);
        match spec_parse_layer(lines.last()) {
            Some(n) => (prev.0, n),
            None => (prev.0.push(lines.last()), prev.1),
        }
    }
}

/// Folds every file's lines in order.
pub open spec fn fold_files(texts: Seq<Seq<char>>) -> (Seq<Seq<char>>, u32)
    decreases texts.len(),
{
    if texts.len() == 0 {
        (seq!["---types---"@], 0u32)
    } else {
        fold_lines(lines_of(texts.last()), fold_files(texts.drop_last()))
    }
}

/// All lines of all texts, in order.
pub open spec fn all_lines(texts: Seq<Seq<char>>) -> Seq<Seq<char>>
    decreases texts.len(),
{
    if texts.len() == 0 { Seq::empty() } else { all_lines(texts.drop_last()) + lines_of(texts.last()) }
}

/// The lines that are no `// LAYER <n>` marker, in order.
pub open spec fn non_layer(lines: Seq<Seq<char>>) -> Seq<Seq<char>>
    decreases lines.len(),
{
    if lines.len() == 0 {
        Seq::empty()
    } else if spec_parse_layer(lines.last()) is Some {
        non_layer(lines.drop_last())
    } else {
        non_layer(lines.drop_last()).push(lines.last())
    }
}

/// The value of the last `// LAYER <n>` marker, or `d` when there is none.
pub open spec fn last_layer(lines: Seq<Seq<char>>, d: u32) -> u32
    decreases lines.len(),
{
    if lines.len() == 0 {
        d
    } else {
        match spec_parse_layer(lines.last()) {
            Some(n) => n,
            None => last_layer(lines.drop_last(), d),
        }
    }
}

proof fn lemma_fold_lines(lines: Seq<Seq<char>>, acc: (Seq<Seq<char>>, u32))
    ensures
        fold_lines(lines, acc) == (acc.0 + non_layer(lines), last_layer(lines, acc.1)),
    decreases lines.len(),
{
    if lines.len() == 0 {
        assert(acc.0 + non_layer(lines) =~= acc.0);
    } else {
        lemma_fold_lines(lines.drop_last(), acc);
        if spec_parse_layer(lines.last()) is None {
            assert(acc.0 + non_layer(lines.drop_last()).push(lines.last()) =~= (acc.0 + non_layer(lines.drop_last())).push(lines.last()));
        }
    }
}

proof fn lemma_non_layer_concat(a: Seq<Seq<char>>, b: Seq<Seq<char>>)
    ensures
        non_layer(a + b) == non_layer(a) + non_layer(b),
        forall|d: u32| last_layer(a + b, d) == #[trigger] last_layer(b, last_layer(a, d)),
    decreases b.len(),
{
    if b.len() == 0 {
        assert(a + b =~= a);
        assert(non_layer(a) + non_layer(b) =~= non_layer(a));
    } else {
        lemma_non_layer_concat(a, b.drop_last());
        assert((a + b).drop_last() =~= a + b.drop_last());
        assert((a + b).last() == b.last());
        if spec_parse_layer(b.last()) is None {
            assert(non_layer(a) + non_layer(b.drop_last()).push(b.last()) =~= (non_layer(a) + non_layer(b.drop_last())).push(b.last()));
        }
        assert forall|d: u32| last_layer(a + b, d) == #[trigger] last_layer(b, last_layer(a, d)) by {
            assert(last_layer(a + b.drop_last(), d) == last_layer(b.drop_last(), last_layer(a, d)));
        }
    }
}

proof fn lemma_non_layer_clean(lines: Seq<Seq<char>>)
    ensures
        forall|i: int| 0 <= i < non_layer(lines).len() ==> spec_parse_layer(#[trigger] non_layer(lines)[i]) is None,
    decreases lines.len(),
{
    if lines.len() > 0 {
        lemma_non_layer_clean(lines.drop_last());
    }
}

/// Reading inputs keeps every line but the `// LAYER <n>` markers, in
/// order, after the `---types---` sentinel; the layer is that of the last
/// marker over all files (0 without one), and no kept line after the
/// sentinel is a marker.
pub proof fn law_inputs_lines_and_layer(texts: Seq<Seq<char>>)
    ensures
        fold_files(texts).0 == seq!["---types---"@] + non_layer(all_lines(texts)),
        fold_files(texts).1 == last_layer(all_lines(texts), 0),
        forall|i: int| 1 <= i < fold_files(texts).0.len() ==> spec_parse_layer(#[trigger] fold_files(texts).0[i]) is None,
    decreases texts.len(),
{
    if texts.len() == 0 {
        assert(seq!["---types---"@] + non_layer(all_lines(texts)) =~= seq!["---types---"@]);
    } else {
        law_inputs_lines_and_layer(texts.drop_last());
        let prev = fold_files(texts.drop_last());
        lemma_fold_lines(lines_of(texts.last()), prev);
        lemma_non_layer_concat(all_lines(texts.drop_last()), lines_of(texts.last()));
        assert(seq!["---types---"@] + non_layer(all_lines(texts.drop_last())) + non_layer(lines_of(texts.last()))
            =~= seq!["---types---"@] + (non_layer(all_lines(texts.drop_last())) + non_layer(lines_of(texts.last()))));
        assert(last_layer(all_lines(texts), 0) == last_layer(lines_of(texts.last()), last_layer(all_lines(texts.drop_last()), 0)));
    }
    lemma_non_layer_clean(all_lines(texts));
    assert forall|i: int| 1 <= i < fold_files(texts).0.len() implies spec_parse_layer(#[trigger] fold_files(texts).0[i]) is None by {
        assert(fold_files(texts).0[i] == non_layer(all_lines(texts))[i - 1]);
    }
}

/// Build the inputs from `(basename, text)` pairs: every line kept verbatim
/// except `// LAYER <n>` markers (the last one wins), with the
/// `---types---` sentinel prepended.
pub fn inputs_from_texts(files: &Vec<(String, String)>) -> (r: TlInputs)
    ensures
        views(r.lines@) == fold_files(files@.map_values(|f: (String, String)| f.1@)).0,
        r.layer == fold_files(files@.map_values(|f: (String, String)| f.1@)).1,
        views(r.names@) == files@.map_values(|f: (String, String)| f.0@),
{
    let ghost texts = files@.map_values(|f: (String, String)| f.1@);
    let mut all_lines: Vec<String> = Vec::new();
    all_lines.push(String::from_str("---types---"));
    let mut layer: u32 = 0;
    let mut names: Vec<String> = Vec::new();
    let mut i: usize = 0;
    assert(views(all_lines@) =~= seq!["---types---"@]);
    while i < files.len()
        invariant
            i <= files@.len(),
            texts == files@.map_values(|f: (String, String)| f.1@),
            (views(all_lines@), layer) == fold_files(texts.take(i as int)),
            views(names@) == files@.map_values(|f: (String, String)| f.0@).take(i as int),
        decreases files.len() - i,
    {
        let ghost before = (views(all_lines@), layer);
        let nm = files[i].0.clone();
        let ghost old_names = names@;
        names.push(nm);
        proof {
            assert(views(names@) =~= views(old_names).push(files@[i as int].0@));
            assert(views(names@) =~= files@.map_values(|f: (String, String)| f.0@).take(i + 1));
        }
        let text = chars_of(files[i].1.as_str());
        let ls = lines_exec(&text);
        let ghost lv = ls@.map_values(|v: Vec<char>| v@);
        let mut j: usize = 0;
        while j < ls.len()
            invariant
                j <= ls@.len(),
                lv == ls@.map_values(|v: Vec<char>| v@),
                (views(all_lines@), layer) == fold_lines(lv.take(j as int), before),
            decreases ls.len() - j,
        {
            let l = &ls[j];
            assert(lv.take(j + 1).drop_last() =~= lv.take(j as int));
            assert(lv.take(j + 1).last() == l@);
            match parse_layer(l) {
                Some(n) => {
                    layer = n;
                },
                None => {
                    let s = string_of(l);
                    all_lines.push(s);
                    assert(views(all_lines@) =~= views(all_lines@.drop_last()).push(l@));
                },
            }
            j += 1;
        }
        proof {
            assert(lv.take(lv.len() as int) =~= lv);
            assert(texts.take(i + 1).drop_last() =~= texts.take(i as int));
            assert(texts.take(i + 1).last() == files@[i as int].1@);
        }
        i += 1;
    }
    assert(texts.take(files@.len() as int) =~= texts);
    assert(files@.map_values(|f: (String, String)| f.0@).take(files@.len() as int) =~= files@.map_values(|f: (String, String)| f.0@));
    TlInputs { lines: all_lines, layer, names }
}

// ---------------------------------------------------------------------------
// Comment tags
// ---------------------------------------------------------------------------

/// Text after `@<tag> ` up to the next `@` (or the end).
pub open spec fn tag_text(comments: Seq<char>, tag: Seq<char>) -> Option<Seq<char>> {
    let needle = "@"@ + tag + " "@;
    match find(comments, needle) {
        Some(p) => {
            let tail = comments.skip(p + needle.len());
            match find_char(tail, '@') {
                Some(i) => Some(tail.take(i)),
                None => Some(tail),
            }
        },
        None => None,
    }
}

/// `endsWithForTag`: the text of `@<tag>` ends with `; <ending>`, or holds
/// `; <ending>` directly followed by one of the accepted continuations, or
/// holds `<ending>` closing a clause that `; ` follows.
pub open spec fn spec_ends_with_for_tag(comments: Seq<char>, tag: Seq<char>, ending: Seq<char>) -> bool {
    match tag_text(comments, tag) {
        None => false,
        Some(line) => {
            let st = trim(line);
            let te = trim(ending);
            let full = "; "@ + te;
            ||| ends_with(st, full)
            ||| contains(st, full + "."@)
            ||| contains(st, full + ";"@)
            ||| contains(st, full + " if"@)
            ||| contains(st, full + " to"@)
            ||| contains(st, full + " otherwise"@)
            ||| contains(st, full + " unless"@)
            ||| contains(st, full + " even"@)
            ||| contains(st, full + " for"@)
            ||| contains(st, te + "; "@)
        },
    }
}

fn contains_with(st: &[char], full: &[char], sep: &str) -> (r: bool)
    ensures
        r == contains(st@, full@ + sep@),
{
    let mut p = slice_copy(full, 0, full.len());
    assert(p@ =~= full@);
    extend_str(&mut p, sep);
    find_exec(st, &p).is_some()
}

/// Looks for `@<tag> ` in the accumulated comments and checks that the text
/// up to the next `@`, trimmed, ends with `; <ending>`, holds `; <ending>`
/// continued by `.`, `;`, ` if`, ` to`, ` otherwise`, ` unless`, ` even` or
/// ` for`, or holds `<ending>` followed by `; `.
pub fn ends_with_for_tag(comments: &str, tag: &str, ending: &str) -> (r: bool)
    ensures
        r == spec_ends_with_for_tag(comments@, tag@, ending@),
{
    let c = chars_of(comments);
    let mut needle = chars_of("@");
    extend_str(&mut needle, tag);
    extend_str(&mut needle, " ");
    let pos = match find_exec(&c, &needle) {
        Some(p) => p,
        None => return false,
    };
    proof { lemma_find_from(c@, needle@, 0); }
    let cl = c.len();
    assert(pos + needle@.len() <= cl);
    let tail = slice_copy(&c, pos + needle.len(), cl);
    let line = match find_char_exec(&tail, '@') {
        Some(i) => slice_copy(&tail, 0, i),
        None => tail,
    };
    proof {
        assert(tail@ =~= c@.skip(pos + needle@.len()));
        match find_char(tail@, '@') {
            Some(i) => { assert(line@ =~= tail@.take(i)); },
            None => {},
        }
    }
    let stripped = trimmed(&line);
    let e = chars_of(ending);
    let mut full = chars_of("; ");
    let te = trimmed(&e);
    extend(&mut full, &te);
    if ends_with_exec(&stripped, &full) {
        return true;
    }
    contains_with(&stripped, &full, ".") || contains_with(&stripped, &full, ";")
        || contains_with(&stripped, &full, " if") || contains_with(&stripped, &full, " to")
        || contains_with(&stripped, &full, " otherwise") || contains_with(&stripped, &full, " unless")
        || contains_with(&stripped, &full, " even") || contains_with(&stripped, &full, " for")
        || contains_with(&stripped, &te, "; ")
}

/// `description` is looked up as `param_description`.
pub open spec fn spec_param_name_tag(name: Seq<char>) -> Seq<char> {
    if name == "description"@ { "param_description"@ } else { name }
}

/// `description` -> `param_description`, any other name unchanged.
pub fn param_name_tag(name: &str) -> (r: &str)
    ensures
        r@ == spec_param_name_tag(name@),
{
    if str_eq(name, "description") {
        "param_description"
    } else {
        name
    }
}

pub open spec fn spec_is_bots_only_line(comments: Seq<char>) -> bool {
    spec_ends_with_for_tag(comments, "description"@, "for bots only"@)
        || spec_ends_with_for_tag(comments, "description"@, "bots only"@)
}

pub open spec fn spec_is_bots_only_param(comments: Seq<char>, name: Seq<char>) -> bool {
    spec_ends_with_for_tag(comments, spec_param_name_tag(name), "for bots only"@)
        || spec_ends_with_for_tag(comments, spec_param_name_tag(name), "bots only"@)
}

pub open spec fn spec_is_mobile_only_line(comments: Seq<char>) -> bool {
    spec_ends_with_for_tag(comments, "description"@, "for official mobile applications only"@)
}

pub open spec fn spec_is_nullable_vector(comments: Seq<char>, name: Seq<char>) -> bool {
    name.len() > 0 && name.last() == 's'
        && spec_ends_with_for_tag(comments, spec_param_name_tag(name), name + " may be null"@)
}

pub open spec fn spec_is_nullable_param(comments: Seq<char>, name: Seq<char>) -> bool {
    spec_ends_with_for_tag(comments, spec_param_name_tag(name), "may be null"@)
        || spec_ends_with_for_tag(comments, spec_param_name_tag(name), "pass null"@)
}

/// The description marks the line as bots-only.
pub fn is_bots_only_line(comments: &str) -> (r: bool)
    ensures
        r == spec_is_bots_only_line(comments@),
{
    ends_with_for_tag(comments, "description", "for bots only")
        || ends_with_for_tag(comments, "description", "bots only")
}

/// The parameter's description marks it as bots-only.
pub fn is_bots_only_param(comments: &str, name: &str) -> (r: bool)
    ensures
        r == spec_is_bots_only_param(comments@, name@),
{
    let tag = param_name_tag(name);
    ends_with_for_tag(comments, tag, "for bots only") || ends_with_for_tag(comments, tag, "bots only")
}

/// The description marks the line as for official mobile applications only.
pub fn is_mobile_only_line(comments: &str) -> (r: bool)
    ensures
        r == spec_is_mobile_only_line(comments@),
{
    ends_with_for_tag(comments, "description", "for official mobile applications only")
}

/// A plural parameter whose description says its elements may be null.
pub fn is_nullable_vector(comments: &str, name: &str) -> (r: bool)
    ensures
        r == spec_is_nullable_vector(comments@, name@),
{
    let nv = chars_of(name);
    if nv.len() == 0 || nv[nv.len() - 1] != 's' {
        return false;
    }
    let mut ending = String::from_str(name);
    ending.append(" may be null");
    let tag = param_name_tag(name);
    ends_with_for_tag(comments, tag, ending.as_str())
}

/// The parameter's description says it may be null (or null may be passed).
pub fn is_nullable_param(comments: &str, name: &str) -> (r: bool)
    ensures
        r == spec_is_nullable_param(comments@, name@),
{
    let tag = param_name_tag(name);
    ends_with_for_tag(comments, tag, "may be null") || ends_with_for_tag(comments, tag, "pass null")
}


// ---------------------------------------------------------------------------
// Tag diagnostics
// ---------------------------------------------------------------------------

/// The diagnostic a failed tag check reports: the ending occurs in the tag's
/// text, but not in an accepted position.
pub open spec fn tag_note_text(ending: Seq<char>, stripped: Seq<char>) -> Seq<char> {
    "WARNING: Found \""@ + ending + "\" in \""@ + stripped + "\""@
}

/// What one `ends_with_for_tag` check reports: nothing when the tag is
/// missing, when its trimmed text is shorter in bytes than `; <ending>`, or
/// when the check holds; otherwise the warning, if the untrimmed text holds
/// `ending` at all.
pub open spec fn spec_tag_note(comments: Seq<char>, tag: Seq<char>, ending: Seq<char>) -> Seq<Seq<char>> {
    match tag_text(comments, tag) {
        None => Seq::empty(),
        Some(line) => {
            let st = trim(line);
            let full = "; "@ + trim(ending);
            if encode_utf8(st).len() < encode_utf8(full).len() {
                Seq::empty()
            } else if spec_ends_with_for_tag(comments, tag, ending) {
                Seq::empty()
            } else if contains(line, ending) {
                seq![tag_note_text(ending, st)]
            } else {
                Seq::empty()
            }
        },
    }
}

/// Diagnostics of the bots-only line check (the second ending is tried only
/// when the first fails).
pub open spec fn spec_bots_only_line_notes(comments: Seq<char>) -> Seq<Seq<char>> {
    spec_tag_note(comments, "description"@, "for bots only"@)
        + if spec_ends_with_for_tag(comments, "description"@, "for bots only"@) {
            Seq::empty()
        } else {
            spec_tag_note(comments, "description"@, "bots only"@)
        }
}

/// Diagnostics of the line checks a constructor goes through: bots-only,
/// then mobile-only where the line is not bots-only.
pub open spec fn spec_line_notes(comments: Seq<char>) -> Seq<Seq<char>> {
    spec_bots_only_line_notes(comments)
        + if spec_is_bots_only_line(comments) {
            Seq::empty()
        } else {
            spec_tag_note(comments, "description"@, "for official mobile applications only"@)
        }
}

pub open spec fn spec_bots_only_param_notes(comments: Seq<char>, name: Seq<char>) -> Seq<Seq<char>> {
    let tag = spec_param_name_tag(name);
    spec_tag_note(comments, tag, "for bots only"@)
        + if spec_ends_with_for_tag(comments, tag, "for bots only"@) {
            Seq::empty()
        } else {
            spec_tag_note(comments, tag, "bots only"@)
        }
}

pub open spec fn spec_nullable_vector_notes(comments: Seq<char>, name: Seq<char>) -> Seq<Seq<char>> {
    if name.len() > 0 && name.last() == 's' {
        spec_tag_note(comments, spec_param_name_tag(name), name + " may be null"@)
    } else {
        Seq::empty()
    }
}

pub open spec fn spec_nullable_param_notes(comments: Seq<char>, name: Seq<char>) -> Seq<Seq<char>> {
    let tag = spec_param_name_tag(name);
    spec_tag_note(comments, tag, "may be null"@)
        + if spec_ends_with_for_tag(comments, tag, "may be null"@) {
            Seq::empty()
        } else {
            spec_tag_note(comments, tag, "pass null"@)
        }
}

/// Diagnostics of the checks a plain parameter goes through: bots-only,
/// then vector-nullable where not bots-only, then nullable where neither.
pub open spec fn spec_param_notes(comments: Seq<char>, name: Seq<char>) -> Seq<Seq<char>> {
    spec_bots_only_param_notes(comments, name)
        + if spec_is_bots_only_param(comments, name) {
            Seq::empty()
        } else {
            spec_nullable_vector_notes(comments, name)
                + if spec_is_nullable_vector(comments, name) {
                    Seq::empty()
                } else {
                    spec_nullable_param_notes(comments, name)
                }
        }
}

/// The diagnostic of one tag check, if it reports one.
pub fn tag_note(comments: &str, tag: &str, ending: &str) -> (r: Vec<String>)
    ensures
        views(r@) == spec_tag_note(comments@, tag@, ending@),
{
    let c = chars_of(comments);
    let mut needle = chars_of("@");
    extend_str(&mut needle, tag);
    extend_str(&mut needle, " ");
    let pos = match find_exec(&c, &needle) {
        Some(p) => p,
        None => return Vec::new(),
    };
    proof { lemma_find_from(c@, needle@, 0); }
    let cl = c.len();
    assert(pos + needle@.len() <= cl);
    let tail = slice_copy(&c, pos + needle.len(), cl);
    let line = match find_char_exec(&tail, '@') {
        Some(i) => slice_copy(&tail, 0, i),
        None => tail,
    };
    proof {
        assert(tail@ =~= c@.skip(pos + needle@.len()));
        match find_char(tail@, '@') {
            Some(i) => { assert(line@ =~= tail@.take(i)); },
            None => {},
        }
    }
    let stripped = trimmed(&line);
    let e = chars_of(ending);
    let mut full = chars_of("; ");
    let te = trimmed(&e);
    extend(&mut full, &te);
    let ss = string_of(&stripped);
    let fs = string_of(&full);
    if ss.as_str().as_bytes().len() < fs.as_str().as_bytes().len() {
        return Vec::new();
    }
    if ends_with_for_tag(comments, tag, ending) {
        return Vec::new();
    }
    if find_exec(&line, &e).is_none() {
        return Vec::new();
    }
    let mut m = String::from_str("WARNING: Found \"");
    m.append(ending);
    m.append("\" in \"");
    m.append(ss.as_str());
    m.append("\"");
    let mut v: Vec<String> = Vec::new();
    v.push(m);
    assert(views(v@) =~= seq![tag_note_text(ending@, stripped@)]);
    v
}

/// Appends `more` to `acc`, in order.
pub fn append_notes(acc: &mut Vec<String>, more: Vec<String>)
    ensures
        views(final(acc)@) == views(old(acc)@) + views(more@),
{
    let mut i: usize = 0;
    while i < more.len()
        invariant
            i <= more@.len(),
            views(acc@) == views(old(acc)@) + views(more@).take(i as int),
        decreases more.len() - i,
    {
        let ghost a0 = acc@;
        acc.push(more[i].clone());
        assert(views(acc@) =~= views(a0).push(more@[i as int]@));
        assert(views(more@).take(i + 1) =~= views(more@).take(i as int).push(more@[i as int]@));
        i += 1;
    }
    assert(views(more@).take(more@.len() as int) =~= views(more@));
}

/// Diagnostics of the line checks of a constructor with these comments.
pub fn line_notes(comments: &str) -> (r: Vec<String>)
    ensures
        views(r@) == spec_line_notes(comments@),
{
    let mut r = tag_note(comments, "description", "for bots only");
    if !ends_with_for_tag(comments, "description", "for bots only") {
        append_notes(&mut r, tag_note(comments, "description", "bots only"));
    }
    assert(views(r@) =~= spec_bots_only_line_notes(comments@));
    if !is_bots_only_line(comments) {
        append_notes(&mut r, tag_note(comments, "description", "for official mobile applications only"));
    }
    assert(views(r@) =~= spec_line_notes(comments@));
    r
}

/// Diagnostics of the checks of a plain parameter `name`.
pub fn param_notes(comments: &str, name: &str) -> (r: Vec<String>)
    ensures
        views(r@) == spec_param_notes(comments@, name@),
{
    let tag = param_name_tag(name);
    let mut r = tag_note(comments, tag, "for bots only");
    if !ends_with_for_tag(comments, tag, "for bots only") {
        append_notes(&mut r, tag_note(comments, tag, "bots only"));
    }
    assert(views(r@) =~= spec_bots_only_param_notes(comments@, name@));
    if is_bots_only_param(comments, name) {
        assert(views(r@) =~= spec_param_notes(comments@, name@));
        return r;
    }
    let nv = chars_of(name);
    let mut rest: Vec<String> = Vec::new();
    if nv.len() > 0 && nv[nv.len() - 1] == 's' {
        let mut ending = String::from_str(name);
        ending.append(" may be null");
        rest = tag_note(comments, tag, ending.as_str());
    }
    assert(views(rest@) =~= spec_nullable_vector_notes(comments@, name@));
    if !is_nullable_vector(comments, name) {
        append_notes(&mut rest, tag_note(comments, tag, "may be null"));
        if !ends_with_for_tag(comments, tag, "may be null") {
            append_notes(&mut rest, tag_note(comments, tag, "pass null"));
        }
    }
    append_notes(&mut r, rest);
    assert(views(r@) =~= spec_param_notes(comments@, name@));
    r
}

} // verus!
