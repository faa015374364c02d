//! `scheme.h`: the banner, namespaces, type id enum and the generation
//! pass's accumulators in their fixed order.

use vstd::prelude::*;
use crate::config::CodegenScheme;
use crate::emit::quoted_names;
use crate::emit::quoted_names_exec;
use crate::emit::gen::{generate, generate_ok, spec_generate};
use crate::ir::{Scheme, SchemeModel};
use crate::parser::scheme_view;
use crate::text::{dec, dec_string, join, join_exec, views};

verus! {

/// The whole header text.
pub open spec fn header_text(sm: SchemeModel, cfg: CodegenScheme) -> Seq<char> {
    let g = spec_generate(sm, cfg);
    let global = cfg.namespaces.global@;
    let creator = cfg.namespaces.creator@;
    let h = "// WARNING! All changes made in this file will be lost!\n"@ + "// Created from "@
        + quoted_names(sm.input_names) + " by 'generate.py'\n//\n#pragma once\n\n"@;
    let h = if cfg.builtin_header@.len() > 0 { h + "#include \""@ + cfg.builtin_header@ + "\"\n"@ } else { h };
    let h = h + "#include \"base/assertion.h\"\n"@ + "#include \"base/flags.h\"\n"@ + "#include \"tl/tl_boxed.h\"\n"@
        + "#include \"tl/tl_type_owner.h\"\n"@ + "\n"@;
    let h = if global.len() > 0 { h + "namespace "@ + global + " {\n"@ } else { h };
    let h = if creator.len() > 0 { h + "namespace "@ + creator + " {\n"@ } else { h };
    let h = h + "\n"@;
    let h = if sm.layer != 0 {
        h + "inline constexpr auto kCurrentLayer = "@ + cfg.types.prime@ + "("@ + dec(sm.layer) + ");\n\n"@
    } else {
        h
    };
    let h = h + "class TypeCreator;\n\n"@;
    let h = if creator.len() > 0 { h + "} // namespace "@ + creator + "\n\n"@ } else { h };
    let h = h + "// Type id constants\nenum {\n"@ + join(sm.enums, ",\n"@)
        + "\n};\n\n// Type forward declarations\n"@ + g.forwards + "\n"@ + g.forw_typedefs
        + "// Type classes definitions\n"@ + g.types_text + "\n"@ + "// Type constructors with data\n"@ + g.data_texts
        + "\n"@ + "// RPC methods\n"@ + g.funcs_text + "\n"@ + "// Template methods definition\n"@ + g.inline_methods
        + "\n"@ + "// Visitor definition\n"@ + g.visitor_methods + "\n"@ + "// Flag operators definition\n"@
        + g.flag_operators + "\n"@ + "// Factory methods declaration\n"@ + g.factories + "\n"@;
    if global.len() > 0 { h + "} // namespace "@ + global + "\n"@ } else { h }
}

/// The `.h` text for a parsed scheme.
pub fn emit(scheme: &Scheme, config: &CodegenScheme) -> (r: String)
    requires
        generate_ok(scheme_view(*scheme), *config),
    ensures
        r@ == header_text(scheme_view(*scheme), *config),
{
    let g = generate(scheme, config);
    let global = config.namespaces.global.as_str();
    let creator = config.namespaces.creator.as_str();
    let names = quoted_names_exec(&scheme.input_names);
    let mut h = String::from_str("// WARNING! All changes made in this file will be lost!\n");
    h.append("// Created from ");
    h.append(names.as_str());
    h.append(" by 'generate.py'\n//\n#pragma once\n\n");
    if config.builtin_header.unicode_len() > 0 {
        h.append("#include \"");
        h.append(config.builtin_header.as_str());
        h.append("\"\n");
    }
    h.append("#include \"base/assertion.h\"\n");
    h.append("#include \"base/flags.h\"\n");
    h.append("#include \"tl/tl_boxed.h\"\n");
    h.append("#include \"tl/tl_type_owner.h\"\n");
    h.append("\n");
    if global.unicode_len() > 0 {
        h.append("namespace ");
        h.append(global);
        h.append(" {\n");
    }
    if creator.unicode_len() > 0 {
        h.append("namespace ");
        h.append(creator);
        h.append(" {\n");
    }
    h.append("\n");
    if scheme.layer != 0 {
        let l = dec_string(scheme.layer);
        h.append("inline constexpr auto kCurrentLayer = ");
        h.append(config.types.prime.as_str());
        h.append("(");
        h.append(l.as_str());
        h.append(");\n\n");
    }
    h.append("class TypeCreator;\n\n");
    if creator.unicode_len() > 0 {
        h.append("} // namespace ");
        h.append(creator);
        h.append("\n\n");
    }
    let enums = join_exec(&scheme.enums, ",\n");
    h.append("// Type id constants\nenum {\n");
    h.append(enums.as_str());
    h.append("\n};\n\n// Type forward declarations\n");
    h.append(g.forwards.as_str());
    h.append("\n");
    h.append(g.forw_typedefs.as_str());
    h.append("// Type classes definitions\n");
    h.append(g.types_text.as_str());
    h.append("\n");
    h.append("// Type constructors with data\n");
    h.append(g.data_texts.as_str());
    h.append("\n");
    h.append("// RPC methods\n");
    h.append(g.funcs_text.as_str());
    h.append("\n");
    h.append("// Template methods definition\n");
    h.append(g.inline_methods.as_str());
    h.append("\n");
    h.append("// Visitor definition\n");
    h.append(g.visitor_methods.as_str());
    h.append("\n");
    h.append("// Flag operators definition\n");
    h.append(g.flag_operators.as_str());
    h.append("\n");
    h.append("// Factory methods declaration\n");
    h.append(g.factories.as_str());
    h.append("\n");
    if global.unicode_len() > 0 {
        h.append("} // namespace ");
        h.append(global);
        h.append("\n");
    }
    h
}

} // verus!
