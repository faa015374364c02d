use tl_codegen::emit::conversion::conv_ok_exec;
use tl_codegen::config::{CodegenScheme, Conversion, Prefixes, PrimitiveTypes};
use tl_codegen::emit::conversion::{emit_from_header, emit_from_source, emit_to_header, emit_to_source, emit_to_source_with_basenames, from_arg, to_arg};
use tl_codegen::ir::Scheme;
use tl_codegen::tl::TlInputs;

fn cfg() -> CodegenScheme {
    CodegenScheme {
        prefixes: Prefixes {
            type_: "MTP".to_string(),
            data: "MTPD".to_string(),
            id: "mtpc".to_string(),
            construct: "MTP_".to_string(),
        },
        types: PrimitiveTypes {
            prime: "mtpPrime".to_string(),
            type_id: "mtpTypeId".to_string(),
            buffer: "mtpBuffer".to_string(),
        },
        builtin: vec!["long".to_string(), "string".to_string()],
        conversion: Some(Conversion {
            header: "td/telegram/td_api.h".to_string(),
            namespace: "td_api".to_string(),
            builtin_additional: Vec::new(),
            builtin_header_from: String::new(),
            builtin_header_to: String::new(),
        }),
        ..CodegenScheme::default()
    }
}

fn parsed(lines: &[&str]) -> Scheme {
    let mut all = vec!["---types---".to_string()];
    all.extend(lines.iter().map(|l| l.to_string()));
    let inputs = TlInputs { lines: all, layer: 0, names: vec!["test.tl".to_string()] };
    tl_codegen::parser::parse_inputs(&inputs, &cfg())
}

#[test]
fn conversion_absent_gives_empty_texts() {
    let mut c = cfg();
    c.conversion = None;
    let s = Scheme::default();
    assert_eq!(emit_from_header(&s, &c), "");
    assert_eq!(emit_to_header(&s, &c), "");
    assert_eq!(emit_from_source(&s, &c), "");
    assert_eq!(emit_to_source(&s, &c), "");
}

#[test]
fn conversion_single_constructor_type() {
    let s = parsed(&["inputPeerEmpty#7f3b18ea = InputPeer;"]);
    assert_eq!(
        emit_from_header(&s, &cfg()),
        "// WARNING! All changes made in this file will be lost!\n// Created from 'test.tl' by 'generate.py'\n//\n#pragma once\n\n#include \"td/telegram/td_api.h\"\n#include \"scheme.h\"\n\ntemplate <>\nMTPinputPeer tl_from<MTPinputPeer>(ExternalResponse response);\n"
    );
    assert_eq!(
        emit_to_header(&s, &cfg()),
        "// WARNING! All changes made in this file will be lost!\n// Created from 'test.tl' by 'generate.py'\n//\n#pragma once\n\n#include \"td/telegram/td_api.h\"\n#include \"scheme.h\"\n\n::td_api::inputPeerEmpty *tl_to(const MTPinputPeer &value);\n::td_api::inputPeerEmpty *tl_to(const MTPDinputPeerEmpty &value);\n"
    );
    assert_eq!(
        emit_from_source(&s, &cfg()),
        "// WARNING! All changes made in this file will be lost!\n// Created from 'test.tl' by 'generate.py'\n//\n#include \"scheme-conversion-from.h\"\n\n\ntemplate <>\nMTPinputPeer tl_from<MTPinputPeer>(ExternalResponse response) {\n\tExpects(response != nullptr);\n\tExpects(response->get_id() == ::td_api::inputPeerEmpty::ID);\n\n\treturn MTP_inputPeerEmpty();\n}\n"
    );
    let to = emit_to_source_with_basenames(&s, &cfg(), "conv-to.h");
    assert_eq!(
        to,
        "// WARNING! All changes made in this file will be lost!\n// Created from 'test.tl' by 'generate.py'\n//\n#include \"conv-to.h\"\n\n\n::td_api::inputPeerEmpty *tl_to(const MTPinputPeer &value) {\n\treturn tl_to(value.c_inputPeerEmpty());\n}\n\n::td_api::inputPeerEmpty *tl_to(const MTPDinputPeerEmpty &value) {\n\treturn new ::td_api::inputPeerEmpty();\n}\n"
    );
}

#[test]
fn conversion_arguments() {
    let s = parsed(&["ping#7abe77ec ping_id:long = Pong;", "inputPeerEmpty#7f3b18ea = InputPeer;"]);
    let def = &s.types["pong"];
    let c = &def.ctors[0];
    assert_eq!(from_arg(c, "ping_id", "long", &cfg()), "tl_from_simple(specific->ping_id_)");
    assert_eq!(from_arg(c, "text", "string", &cfg()), "tl_from_string(specific->text_)");
    assert_eq!(from_arg(c, "peer", "InputPeer", &cfg()), "tl_from<MTPInputPeer>(specific->peer_.get())");
    assert_eq!(to_arg(c, "ping_id", "long", &cfg(), &s).unwrap(), "tl_to_simple(value.vping_id())");
    assert_eq!(to_arg(c, "peers", "Vector<InputPeer>", &cfg(), &s).unwrap(), "tl_to_vector(value.vpeers())");
    assert_eq!(
        to_arg(c, "peer", "inputPeer", &cfg(), &s).unwrap(),
        "::td::td_api::object_ptr<::td_api::inputPeer>(tl_to(value.vpeer()))"
    );
}

#[test]
fn conversion_refuses_conditional_parameters() {
    let s = parsed(&["testFlags#5f2073e5 flags:# on:flags.0?true value:flags.1?int = TestFlags;"]);
    assert!(!conv_ok_exec(&s, &cfg()));
    let ok = parsed(&["inputPeerEmpty#7f3b18ea = InputPeer;"]);
    assert!(conv_ok_exec(&ok, &cfg()));
}
