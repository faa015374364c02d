use tl_codegen::emit::dump::dump_ok_exec;
use tl_codegen::config::{CodegenScheme, DumpToText, Prefixes, PrimitiveTypes};
use tl_codegen::emit::dump::{emit_header, emit_source, emit_source_with_basenames};
use tl_codegen::ir::Scheme;
use tl_codegen::tl::TlInputs;

fn cfg() -> CodegenScheme {
    CodegenScheme {
        prefixes: Prefixes {
            type_: "MTP".to_string(),
            data: "MTPD".to_string(),
            id: "mtpc".to_string(),
            construct: "MTP_".to_string(),
        },
        types: PrimitiveTypes {
            prime: "mtpPrime".to_string(),
            type_id: "mtpTypeId".to_string(),
            buffer: "mtpBuffer".to_string(),
        },
        dump_to_text: Some(DumpToText { header: "mtproto/details/mtproto_dump_to_text.h".to_string() }),
        ..CodegenScheme::default()
    }
}

fn parsed(lines: &[&str]) -> Scheme {
    let mut all = vec!["---types---".to_string()];
    all.extend(lines.iter().map(|l| l.to_string()));
    let inputs = TlInputs { lines: all, layer: 0, names: vec!["test.tl".to_string()] };
    tl_codegen::parser::parse_inputs(&inputs, &cfg())
}

#[test]
fn dump_header_text() {
    let mut s = Scheme::default();
    s.input_names = vec!["api.tl".to_string()];
    assert_eq!(
        emit_header(&s, &cfg()),
        "// WARNING! All changes made in this file will be lost!\n// Created from 'api.tl' by 'generate.py'\n//\n#pragma once\n\nnamespace MTP::details {\n\nstruct DumpToTextBuffer;\n\n[[nodiscard]] bool DumpToTextType(DumpToTextBuffer &to, const mtpPrime *&from, const mtpPrime *end, mtpPrime cons = 0, uint32 level = 0, mtpPrime vcons = 0);\n\n} // namespace MTP::details\n"
    );
}

#[test]
fn dump_source_serializers() {
    let s = parsed(&["inputPeerEmpty#7f3b18ea = InputPeer;", "---functions---", "ping#7abe77ec ping_id:long = Pong;"]);
    let text = emit_source(&s, &cfg());
    assert!(text.starts_with(
        "// WARNING! All changes made in this file will be lost!\n// Created from 'test.tl' by 'generate.py'\n//\n#include \"scheme-dump_to_text.h\"\n#include \"scheme.h\"\n#include \"mtproto/details/mtproto_dump_to_text.h\"\n#include \"base/flat_map.h\"\n\nnamespace MTP::details {\nnamespace {\n\nusing Types = QVector<mtpTypeId>;\n"
    ));
    assert!(text.contains(
        "bool Serialize_inputPeerEmpty(DumpToTextBuffer &to, int32 stage, int32 lev, Types &types, Types &vtypes, Stages &stages, Flags &flags, const mtpPrime *start, const mtpPrime *end, uint64 iflag) {\n\tto.add(\"{ inputPeerEmpty }\"); types.pop_back(); vtypes.pop_back(); stages.pop_back(); flags.pop_back();\n\treturn true;\n}\n\n"
    ));
    assert!(text.contains(
        "\tswitch (stage) {\n\tcase 0: to.add(\"  ping_id: \"); ++stages.back(); types.push_back(mtpc_long+0); vtypes.push_back(0); stages.push_back(0); flags.push_back(0); break;\n\tdefault: to.add(\"}\"); types.pop_back(); vtypes.pop_back(); stages.pop_back(); flags.pop_back(); break;\n\t}\n\treturn true;\n}\n\n"
    ));
    assert!(text.contains("\t\t{ mtpc_inputPeerEmpty, Serialize_inputPeerEmpty },\n\t\t{ mtpc_ping, Serialize_ping },\n\t    { mtpc_rpc_result, Serialize_rpc_result },\n"));
    assert!(text.contains("const mtpPrime *start, const mtpPrime *end, uint64 iflag) {\n\tif (stage) {\n\t\tto.add(\",\\n\").addSpaces(lev);\n\t} else {\n\t\tto.add(\"{ rpc_result\");"));
    assert!(!text.contains("{PRIME}"));
    assert!(text.ends_with("\treturn true;\n}\n} // namespace MTP::details\n"));
    let other = emit_source_with_basenames(&s, &cfg(), "a.h", "b.h");
    assert!(other.contains("#include \"a.h\"\n#include \"b.h\"\n"));
}

#[test]
fn dump_accepts_parsed_schemes() {
    let s = parsed(&["inputPeerEmpty#7f3b18ea = InputPeer;", "---functions---", "ping#7abe77ec ping_id:long = Pong;"]);
    assert!(dump_ok_exec(&s));
    assert!(dump_ok_exec(&Scheme::default()));
}

#[test]
fn emit_source_notes_report_complex_bare_types() {
    let mut s = parsed(&[
        "inputPeerEmpty#7f3b18ea = InputPeer;",
        "inputPeerSelf#7da07ec9 = InputPeer;",
        "---functions---",
        "ping#7abe77ec ping_id:long = Pong;",
    ]);
    assert!(tl_codegen::emit::dump::emit_source_notes(&s).is_empty());
    s.funcs.get_mut("pong").unwrap().ctors[0].params.push(tl_codegen::ir::Param {
        name: "peer".to_string(),
        tl_type: "inputPeer".to_string(),
        raw_tl_type: "inputPeer".to_string(),
        flag_bit: None,
        is_true_flag: false,
    });
    assert_eq!(
        tl_codegen::emit::dump::emit_source_notes(&s),
        vec!["Complex bare type found: \"inputPeer\" trying to serialize \"peer\" of type \"inputPeer\"".to_string()]
    );
    let text = emit_source(&s, &cfg());
    assert!(text.contains("\tcase 1: to.add(\"  peer: \"); ++stages.back(); types.push_back(\tdefault:"));
}
