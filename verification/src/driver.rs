//! The generator run, apart from reading and writing files: the texts of
//! every output for one parsed scheme, the files they go to, and the
//! `.timestamp` text.

use vstd::prelude::*;
use crate::config::CodegenScheme;
use crate::emit::conversion::{
    conv_ok, conv_ok_exec, emit_from_header, emit_from_source, emit_to_header, emit_to_source, from_header_text,
    from_source_text, to_header_text, to_source_text,
};
use crate::emit::dump::{dump_header_text, dump_ok, dump_ok_exec, dump_source_text, emit_header as dump_emit_header, emit_source as dump_emit_source};
use crate::emit::gen::{generate_ok, generate_ok_exec};
use crate::emit::header::{emit as header_emit, header_text};
use crate::emit::source::emit as source_emit;
use crate::ir::Scheme;
use crate::parser::scheme_view;
use crate::text::{dec, dec_string, pair_views};

verus! {

/// Outputs the generator produces for one output stem.
#[derive(Debug)]
pub struct Outputs {
    /// `.h` / `.cpp` (always).
    pub header: String,
    pub source: String,
    /// `-dump_to_text.h/.cpp` (only with a dump-to-text output).
    pub dump_header: Option<String>,
    pub dump_source: Option<String>,
    /// `-conversion-*.h/.cpp` (only with a conversion output).
    pub conversion_from_header: Option<String>,
    pub conversion_from_source: Option<String>,
    pub conversion_to_header: Option<String>,
    pub conversion_to_source: Option<String>,
}

pub open spec fn opt_view(o: Option<String>) -> Option<Seq<char>> {
    match o {
        Some(s) => Some(s@),
        None => None,
    }
}

impl Default for Outputs {
    fn default() -> (r: Self)
        ensures
            r.header@ == Seq::<char>::empty(),
            r.source@ == Seq::<char>::empty(),
            r.dump_header is None,
            r.dump_source is None,
            r.conversion_from_header is None,
            r.conversion_from_source is None,
            r.conversion_to_header is None,
            r.conversion_to_source is None,
    {
        Outputs {
            header: String::new(),
            source: String::new(),
            dump_header: None,
            dump_source: None,
            conversion_from_header: None,
            conversion_from_source: None,
            conversion_to_header: None,
            conversion_to_source: None,
        }
    }
}

/// The inputs every emitter handles.
pub open spec fn outputs_ok(s: Scheme, cfg: CodegenScheme) -> bool {
    &&& generate_ok(scheme_view(s), cfg)
    &&& cfg.dump_to_text is Some ==> dump_ok(scheme_view(s))
    &&& conv_ok(scheme_view(s), cfg)
}

/// Whether every emitter handles `parsed` under `config` (`outputs_ok`).
pub fn outputs_ok_exec(parsed: &Scheme, config: &CodegenScheme) -> (r: bool)
    ensures
        r == outputs_ok(*parsed, *config),
{
    generate_ok_exec(parsed, config)
        && (config.dump_to_text.is_none() || dump_ok_exec(parsed))
        && conv_ok_exec(parsed, config)
}

/// All output texts of one run over a parsed scheme.
pub fn generate_outputs(parsed: &Scheme, config: &CodegenScheme) -> (r: Outputs)
    requires
        outputs_ok(*parsed, *config),
    ensures
        r.header@ == header_text(scheme_view(*parsed), *config),
        r.source@ == Seq::<char>::empty(),
        opt_view(r.dump_header) == (if config.dump_to_text is Some {
            Some(dump_header_text(scheme_view(*parsed), *config))
        } else {
            None
        }),
        opt_view(r.dump_source) == (if config.dump_to_text is Some {
            Some(dump_source_text(scheme_view(*parsed), *config, "scheme-dump_to_text.h"@, "scheme.h"@))
        } else {
            None
        }),
        opt_view(r.conversion_from_header) == (if config.conversion is Some {
            Some(from_header_text(scheme_view(*parsed), *config, "scheme.h"@))
        } else {
            None
        }),
        opt_view(r.conversion_from_source) == (if config.conversion is Some {
            Some(from_source_text(scheme_view(*parsed), *config, "scheme-conversion-from.h"@))
        } else {
            None
        }),
        opt_view(r.conversion_to_header) == (if config.conversion is Some {
            Some(to_header_text(scheme_view(*parsed), *config, "scheme.h"@))
        } else {
            None
        }),
        opt_view(r.conversion_to_source) == (if config.conversion is Some {
            Some(to_source_text(scheme_view(*parsed), *config, "scheme-conversion-to.h"@))
        } else {
            None
        }),
{
    let ser = config.write_serialization();
    let conv = config.write_conversion();
    Outputs {
        header: header_emit(parsed, config),
        source: source_emit(parsed, config),
        dump_header: if ser { Some(dump_emit_header(parsed, config)) } else { None },
        dump_source: if ser { Some(dump_emit_source(parsed, config)) } else { None },
        conversion_from_header: if conv { Some(emit_from_header(parsed, config)) } else { None },
        conversion_from_source: if conv { Some(emit_from_source(parsed, config)) } else { None },
        conversion_to_header: if conv { Some(emit_to_header(parsed, config)) } else { None },
        conversion_to_source: if conv { Some(emit_to_source(parsed, config)) } else { None },
    }
}

/// `(path, text)` of every file to write for the stem, in write order: the
/// header and source, the dump-to-text pair when present, and with a
/// conversion output each conversion file that is present.
pub open spec fn planned_writes(stem: Seq<char>, o: Outputs, write_conversion: bool) -> Seq<(Seq<char>, Seq<char>)> {
    let w = seq![(stem + ".h"@, o.header@), (stem + ".cpp"@, o.source@)];
    let w = match o.dump_header { Some(t) => w.push((stem + "-dump_to_text.h"@, t@)), None => w };
    let w = match o.dump_source { Some(t) => w.push((stem + "-dump_to_text.cpp"@, t@)), None => w };
    if write_conversion {
        let w = match o.conversion_from_header { Some(t) => w.push((stem + "-conversion-from.h"@, t@)), None => w };
        let w = match o.conversion_from_source { Some(t) => w.push((stem + "-conversion-from.cpp"@, t@)), None => w };
        let w = match o.conversion_to_header { Some(t) => w.push((stem + "-conversion-to.h"@, t@)), None => w };
        match o.conversion_to_source { Some(t) => w.push((stem + "-conversion-to.cpp"@, t@)), None => w }
    } else {
        w
    }
}

fn path_of(stem: &str, suffix: &str) -> (r: String)
    ensures
        r@ == stem@ + suffix@,
{
    let mut p = String::from_str(stem);
    p.append(suffix);
    p
}

fn push_some(w: &mut Vec<(String, String)>, stem: &str, suffix: &str, t: &Option<String>)
    ensures
        pair_views(final(w)@) == match t {
            Some(s) => pair_views(old(w)@).push((stem@ + suffix@, s@)),
            None => pair_views(old(w)@),
        },
{
    if let Some(s) = t {
        let ghost o = w@;
        w.push((path_of(stem, suffix), s.clone()));
        assert(pair_views(w@) =~= pair_views(o).push((stem@ + suffix@, s@)));
    }
}

/// The files to write, in order.
pub fn output_files(stem: &str, outputs: &Outputs, write_conversion: bool) -> (r: Vec<(String, String)>)
    ensures
        pair_views(r@) == planned_writes(stem@, *outputs, write_conversion),
{
    let mut w: Vec<(String, String)> = Vec::new();
    w.push((path_of(stem, ".h"), outputs.header.clone()));
    w.push((path_of(stem, ".cpp"), outputs.source.clone()));
    assert(pair_views(w@) =~= seq![(stem@ + ".h"@, outputs.header@), (stem@ + ".cpp"@, outputs.source@)]);
    push_some(&mut w, stem, "-dump_to_text.h", &outputs.dump_header);
    push_some(&mut w, stem, "-dump_to_text.cpp", &outputs.dump_source);
    if write_conversion {
        push_some(&mut w, stem, "-conversion-from.h", &outputs.conversion_from_header);
        push_some(&mut w, stem, "-conversion-from.cpp", &outputs.conversion_from_source);
        push_some(&mut w, stem, "-conversion-to.h", &outputs.conversion_to_header);
        push_some(&mut w, stem, "-conversion-to.cpp", &outputs.conversion_to_source);
    }
    w
}

/// `.timestamp` text: `layer <n>` and a newline.
pub fn timestamp_text(layer: u32) -> (r: String)
    ensures
        r@ == "layer "@ + dec(layer) + "\n"@,
{
    let mut s = String::from_str("layer ");
    let d = dec_string(layer);
    s.append(d.as_str());
    s.append("\n");
    s
}

/// A file is written unless it already holds exactly the new text.
pub open spec fn spec_needs_write(existing: Option<Seq<char>>, content: Seq<char>) -> bool {
    match existing {
        Some(e) => e != content,
        None => true,
    }
}

/// Whether a file whose current text is `existing` (`None` when it cannot
/// be read) must be written to hold `content`.
pub fn needs_write(existing: Option<&str>, content: &str) -> (r: bool)
    ensures
        r == spec_needs_write(match existing { Some(e) => Some(e@), None => None }, content@),
{
    match existing {
        Some(e) => !crate::text::str_eq(e, content),
        None => true,
    }
}

/// Writing is idempotent: once a file holds the text, writing the same text
/// again does nothing; a missing or different file is always written.
pub proof fn law_write_idempotent(content: Seq<char>, other: Seq<char>)
    ensures
        !spec_needs_write(Some(content), content),
        spec_needs_write(None, content),
        other != content ==> spec_needs_write(Some(other), content),
{
}

/// Generation is deterministic: schemes with the same model give the same
/// header, dump-to-text and conversion texts under the same configuration.
pub proof fn law_outputs_deterministic(a: Scheme, b: Scheme, cfg: CodegenScheme)
    requires
        scheme_view(a) == scheme_view(b),
    ensures
        header_text(scheme_view(a), cfg) == header_text(scheme_view(b), cfg),
        dump_header_text(scheme_view(a), cfg) == dump_header_text(scheme_view(b), cfg),
        dump_source_text(scheme_view(a), cfg, "scheme-dump_to_text.h"@, "scheme.h"@)
            == dump_source_text(scheme_view(b), cfg, "scheme-dump_to_text.h"@, "scheme.h"@),
        from_header_text(scheme_view(a), cfg, "scheme.h"@) == from_header_text(scheme_view(b), cfg, "scheme.h"@),
        to_source_text(scheme_view(a), cfg, "scheme-conversion-to.h"@) == to_source_text(scheme_view(b), cfg, "scheme-conversion-to.h"@),
{
}

} // verus!
