use tl_codegen::config::{CodegenScheme, Prefixes, PrimitiveTypes};
use tl_codegen::emit::gen::generate;
use tl_codegen::emit::{header, push, Writer};
use tl_codegen::ir::Scheme;

#[test]
fn writer_indents_lines_with_tabs() {
    let mut w = Writer::new();
    w.line("a");
    w.indent();
    w.indent();
    w.line("b");
    w.dedent();
    w.line("c");
    w.dedent();
    w.dedent();
    w.line("d");
    w.raw("raw");
    push(&mut w, "!");
    assert_eq!(w.into_string(), "a\n\t\tb\n\tc\nd\nraw!");
}

fn rw_config() -> CodegenScheme {
    CodegenScheme {
        prefixes: Prefixes {
            type_: "MTP".to_string(),
            data: "MTPD".to_string(),
            id: "mtpc".to_string(),
            construct: "MTP_".to_string(),
        },
        types: PrimitiveTypes {
            prime: "mtpPrime".to_string(),
            type_id: "mtpTypeId".to_string(),
            buffer: "mtpBuffer".to_string(),
        },
        sections: vec!["read-write".to_string()],
        builtin: vec!["int".to_string(), "long".to_string()],
        builtin_templates: vec!["vector".to_string()],
        flag_inheritance: vec![
            ("messageMediaPhoto".to_string(), "messageMedia".to_string()),
            ("channelForbidden".to_string(), "channel".to_string()),
        ],
        ..CodegenScheme::default()
    }
}

#[test]
fn generate_builtin_typedefs_and_flag_operators() {
    let cfg = rw_config();
    let g = generate(&Scheme::default(), &cfg);
    assert_eq!(
        g.forw_typedefs,
        "using MTPInt = tl::boxed<MTPint>;\nusing MTPLong = tl::boxed<MTPlong>;\ntemplate <typename T>\nusing MTPVector = tl::boxed<MTPvector<T>>;\n"
    );
    assert_eq!(
        g.flag_operators,
        "\ninline MTPDmessageMedia::Flags mtpCastFlags(MTPDmessageMediaPhoto::Flags flags) { return static_cast<MTPDmessageMedia::Flag>(flags.value()); }\ninline MTPDmessageMedia::Flags mtpCastFlags(MTPflags<MTPDmessageMediaPhoto::Flags> flags) { return mtpCastFlags(flags.v); }\n"
    );
    assert_eq!(g.funcs_text, "");
    assert_eq!(g.types_text, "");
    assert_eq!(g.parent_flags_check, vec![("MTPDmessageMedia".to_string(), Vec::new())]);
}

#[test]
fn header_of_empty_scheme() {
    let mut cfg = rw_config();
    cfg.builtin = Vec::new();
    cfg.builtin_templates = Vec::new();
    cfg.flag_inheritance = Vec::new();
    cfg.namespaces.global = "MTP".to_string();
    let mut s = Scheme::default();
    s.layer = 229;
    s.input_names = vec!["api.tl".to_string(), "mtproto.tl".to_string()];
    let h = header::emit(&s, &cfg);
    let expected = "// WARNING! All changes made in this file will be lost!\n\
// Created from 'api.tl', 'mtproto.tl' by 'generate.py'\n//\n#pragma once\n\n\
#include \"base/assertion.h\"\n#include \"base/flags.h\"\n#include \"tl/tl_boxed.h\"\n#include \"tl/tl_type_owner.h\"\n\n\
namespace MTP {\n\n\
inline constexpr auto kCurrentLayer = mtpPrime(229);\n\n\
class TypeCreator;\n\n\
// Type id constants\nenum {\n\n};\n\n// Type forward declarations\n\n\
// Type classes definitions\n\n// Type constructors with data\n\n// RPC methods\n\n\
// Template methods definition\n\n// Visitor definition\n\n// Flag operators definition\n\n\n\
// Factory methods declaration\n\n\
} // namespace MTP\n";
    assert_eq!(h, expected);
}

fn parsed(lines: &[&str]) -> Scheme {
    let cfg = rw_config();
    let mut all = vec!["---types---".to_string()];
    all.extend(lines.iter().map(|l| l.to_string()));
    let inputs = tl_codegen::tl::TlInputs { lines: all, layer: 0, names: vec!["test.tl".to_string()] };
    tl_codegen::parser::parse_inputs(&inputs, &cfg)
}

fn plain_config() -> CodegenScheme {
    let mut cfg = rw_config();
    cfg.builtin = Vec::new();
    cfg.builtin_templates = Vec::new();
    cfg.flag_inheritance = Vec::new();
    cfg
}

#[test]
fn generate_single_constructor_type() {
    let s = parsed(&["inputPeerEmpty#7f3b18ea = InputPeer;"]);
    let g = generate(&s, &plain_config());
    assert_eq!(g.forwards, "class MTPinputPeer;\nclass MTPDinputPeerEmpty;\n\n");
    assert_eq!(g.forw_typedefs, "using MTPInputPeer = tl::boxed<MTPinputPeer>;\n");
    assert_eq!(
        g.data_texts,
        "\nclass MTPDinputPeerEmpty {\npublic:\n\ttemplate <typename Other>\n\tstatic constexpr bool Is() { return std::is_same_v<std::decay_t<Other>, MTPDinputPeerEmpty>; };\n\n};\n"
    );
    assert_eq!(
        g.creator_proxy_text,
        "\tinline static MTPinputPeer new_inputPeerEmpty() {\n\t\treturn MTPinputPeer();\n\t}\n"
    );
    assert_eq!(g.factories, "MTPinputPeer MTP_inputPeerEmpty();\n");
    assert_eq!(
        g.types_text,
        "\nclass MTPinputPeer {\npublic:\n\tMTPinputPeer();\n\n\t[[nodiscard]] const MTPDinputPeerEmpty &c_inputPeerEmpty() const;\n\n\ttemplate <typename Method, typename ...Methods>\n\tdecltype(auto) match(Method &&method, Methods &&...methods) const;\n\tmtpTypeId type() const;\n\n\t[[nodiscard]] bool read(const mtpPrime *&from, const mtpPrime *end, mtpTypeId cons = mtpc_inputPeerEmpty);\n\ttemplate <typename Accumulator>\n\tvoid write(Accumulator &to) const;\n\n\tusing ResponseType = void;\n\nprivate:\n\n\tfriend class ::::TypeCreator;\n};\nusing MTPInputPeer = tl::boxed<MTPinputPeer>;\n"
    );
    assert_eq!(
        g.methods,
        "\nMTPinputPeer::MTPinputPeer() = default;\nmtpTypeId MTPinputPeer::type() const {\n\treturn mtpc_inputPeerEmpty;\n}\nbool MTPinputPeer::read(const mtpPrime *&from, const mtpPrime *end, mtpTypeId cons) {\n\treturn true;\n}\ntemplate <typename Accumulator>\nvoid MTPinputPeer::write(Accumulator &to) const {\n}\ntemplate void MTPinputPeer::write<mtpBuffer>(mtpBuffer &to) const;\ntemplate void MTPinputPeer::write<::tl::details::LengthCounter>(::tl::details::LengthCounter &to) const;\nconst MTPDinputPeerEmpty &MTPinputPeer::c_inputPeerEmpty() const {\n\tstatic const MTPDinputPeerEmpty result;\n\treturn result;\n}\nMTPinputPeer MTP_inputPeerEmpty() {\n\treturn ::::TypeCreator::new_inputPeerEmpty();\n}\n"
    );
    assert_eq!(
        g.visitor_methods,
        "template <typename Method, typename ...Methods>\ndecltype(auto) MTPinputPeer::match(Method &&method, Methods &&...methods) const {\n\treturn base::match_method(c_inputPeerEmpty(), std::forward<Method>(method), std::forward<Methods>(methods)...);\n}\n\n"
    );
}

#[test]
fn generate_rpc_method() {
    let s = parsed(&["---functions---", "ping#7abe77ec ping_id:long = Pong;"]);
    let g = generate(&s, &plain_config());
    assert_eq!(
        g.funcs_text,
        "\nclass MTPping { // RPC method 'ping'\npublic:\n\tMTPping();\n\texplicit MTPping(MTPlong ping_id_);\n\tmtpTypeId type() const {\n\t\treturn mtpc_ping;\n\t}\n\n\ttemplate <typename Prime>\n\t[[nodiscard]] bool read(const Prime *&from, const Prime *end, mtpTypeId cons = mtpc_ping);\n\ttemplate <typename Accumulator>\n\tvoid write(Accumulator &to) const;\n\n\t[[nodiscard]] const MTPlong &vping_id() const;\n\n\tusing ResponseType = MTPPong;\n\nprivate:\n\tMTPlong _ping_id;\n\n};\nusing MTPPing = tl::boxed<MTPping>;\n"
    );
    assert_eq!(
        g.methods,
        "MTPping::MTPping() = default;\nMTPping::MTPping(MTPlong ping_id_) : _ping_id(ping_id_) {\n}\ntemplate <typename Prime>\nbool MTPping::read(const Prime *&from, const Prime *end, mtpTypeId cons) {\n\treturn _ping_id.read(from, end);\n}\ntemplate bool MTPping::read<mtpPrime>(const mtpPrime *&from, const mtpPrime *end, mtpTypeId cons);\ntemplate <typename Accumulator>\nvoid MTPping::write(Accumulator &to) const {\n\t_ping_id.write(to);\n}\ntemplate void MTPping::write<mtpBuffer>(mtpBuffer &to) const;\ntemplate void MTPping::write<::tl::details::LengthCounter>(::tl::details::LengthCounter &to) const;\nconst MTPlong &MTPping::vping_id() const {\n\treturn _ping_id;\n}\n"
    );
    assert_eq!(g.inline_methods, "");
}

#[test]
fn flags_enum_tables_and_parent_merge() {
    let s = parsed(&[
        "testFlags#5f2073e5 flags:# on:flags.0?true value:flags.1?int = TestFlags;",
        "testParent#595dcb78 flags:# other:flags.4?int = TestParent;",
    ]);
    let mut cfg = plain_config();
    cfg.flag_inheritance = vec![("testFlags".to_string(), "testParent".to_string())];
    let g = generate(&s, &cfg);
    assert!(g.data_texts.contains(
        "\tenum class Flag : uint32 {\n\t\tf_on = (1U << 0),\n\t\tf_value = (1U << 1),\n\n\t\tMAX_FIELD = (1U << 1),\n\t};\n\tusing Flags = base::flags<Flag>;\n\tfriend inline constexpr bool is_flag_type(Flag) { return true; };\n\n\t[[nodiscard]] bool is_on() const;\n\n"
    ));
    assert!(g.methods.contains("bool MTPDtestFlags::is_on() const {\n\treturn _flags.v & Flag::f_on;\n}\n"));
    let parent = g
        .parent_flags_check
        .iter()
        .find(|(k, _)| k == "MTPDtestParent")
        .map(|(_, v)| v.clone())
        .unwrap();
    assert_eq!(parent, vec![("other".to_string(), 4), ("on".to_string(), 0), ("value".to_string(), 1)]);
    let child = g
        .parent_flags_check
        .iter()
        .find(|(k, _)| k == "MTPDtestFlags")
        .map(|(_, v)| v.clone())
        .unwrap();
    assert_eq!(child, vec![("on".to_string(), 0), ("value".to_string(), 1)]);
    assert!(g.flag_operators.contains("inline MTPDtestParent::Flags mtpCastFlags(MTPDtestFlags::Flags flags)"));
}

#[test]
fn generate_flag_operators_follow_configuration_order() {
    let mut cfg = rw_config();
    cfg.flag_inheritance = vec![
        ("zChild".to_string(), "zParent".to_string()),
        ("aChild".to_string(), "aParent".to_string()),
    ];
    let g = generate(&Scheme::default(), &cfg);
    let op = |c: &str, p: &str| {
        format!(
            "inline MTPD{p}::Flags mtpCastFlags(MTPD{c}::Flags flags) {{ return static_cast<MTPD{p}::Flag>(flags.value()); }}\ninline MTPD{p}::Flags mtpCastFlags(MTPflags<MTPD{c}::Flags> flags) {{ return mtpCastFlags(flags.v); }}\n"
        )
    };
    assert_eq!(g.flag_operators, format!("\n{}{}", op("zChild", "zParent"), op("aChild", "aParent")));
}
