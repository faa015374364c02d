use tl_codegen::config::{CodegenScheme, Prefixes, PrimitiveTypes};
use tl_codegen::parser::parse_inputs;
use tl_codegen::tl::TlInputs;

fn test_scheme() -> CodegenScheme {
    CodegenScheme {
        prefixes: Prefixes {
            type_: "MTP".to_string(),
            data: "MTPD".to_string(),
            id: "mtpc".to_string(),
            construct: "MTP_".to_string(),
        },
        types: PrimitiveTypes {
            prime: "mtpPrime".to_string(),
            type_id: "mtpTypeId".to_string(),
            buffer: "mtpBuffer".to_string(),
        },
        sections: vec!["read-write".to_string()],
        builtin: ["int", "long", "double", "string", "bytes", "int128", "int256"].iter().map(|s| s.to_string()).collect(),
        builtin_templates: vec!["vector".to_string(), "flags".to_string()],
        synonyms: vec![("bytes".to_string(), "string".to_string())],
        ..CodegenScheme::default()
    }
}

#[test]
fn parses_real_constructors() {
    // The contact line is the shortened one; its provided id is that of the
    // full declaration, so the check reports a mismatch and skips it.
    let scheme = test_scheme();
    let inputs = TlInputs {
        lines: vec![
            "---types---".to_string(),
            "boolFalse#bc799737 = Bool;".to_string(),
            "boolTrue#997275b5 = Bool;".to_string(),
            "inputPeerChannel#27bcbbfc channel_id:long access_hash:long = InputPeer;".to_string(),
            "inputPhoneContact#6a1dc4be flags:# client_id:long phone:string note:flags.0?TextWithEntities = InputContact;".to_string(),
        ],
        layer: 229,
        names: vec!["test.tl".to_string()],
    };
    let parsed = parse_inputs(&inputs, &scheme);
    assert_eq!(parsed.layer, 229);
    assert_eq!(parsed.types.len(), 2); // Bool, InputPeer
    let bool_def = &parsed.types["bool"];
    assert_eq!(bool_def.ctors.len(), 2);
    assert!(bool_def.with_type);
    assert!(parsed.types.get("inputPeer").is_some());
    assert!(parsed.types.get("inputContact").is_none());
    assert!(parsed.types.get("input_contact").is_none());
    assert_eq!(parsed.warnings.len(), 1);
    assert!(parsed.warnings[0].contains("mismatch"));
}

#[test]
fn parses_real_constructors_with_full_contact_line() {
    let scheme = test_scheme();
    let inputs = TlInputs {
        lines: vec![
            "---types---".to_string(),
            "boolFalse#bc799737 = Bool;".to_string(),
            "boolTrue#997275b5 = Bool;".to_string(),
            "inputPeerChannel#27bcbbfc channel_id:long access_hash:long = InputPeer;".to_string(),
            "inputPhoneContact#6a1dc4be flags:# client_id:long phone:string first_name:string last_name:string note:flags.0?TextWithEntities = InputContact;".to_string(),
        ],
        layer: 229,
        names: vec!["test.tl".to_string()],
    };
    let parsed = parse_inputs(&inputs, &scheme);
    assert_eq!(parsed.layer, 229);
    assert_eq!(parsed.types.len(), 3);
    let bool_def = &parsed.types["bool"];
    assert_eq!(bool_def.ctors.len(), 2);
    assert!(bool_def.with_type);
    let contact = &parsed.types["inputContact"];
    assert_eq!(contact.ctors.len(), 1);
    let c = &contact.ctors[0];
    assert!(c.has_flags);
    assert_eq!(c.conditions, vec![("note".to_string(), 0)]);
    assert_eq!(parsed.warnings, Vec::<String>::new());
}

#[test]
fn crc_mismatch_warns_and_skips() {
    let scheme = test_scheme();
    let inputs = TlInputs {
        lines: vec!["---types---".to_string(), "boolFalse#deadbeef = Bool;".to_string()],
        layer: 1,
        names: vec!["test.tl".to_string()],
    };
    let parsed = parse_inputs(&inputs, &scheme);
    assert!(parsed.types.is_empty());
    assert_eq!(parsed.warnings.len(), 1);
    assert!(parsed.warnings[0].contains("mismatch"));
}

#[test]
fn functions_section_and_enum_lines() {
    let scheme = test_scheme();
    let inputs = TlInputs {
        lines: vec![
            "---types---".to_string(),
            "boolFalse#bc799737 = Bool;".to_string(),
            "---functions---".to_string(),
            "ping#7abe77ec ping_id:long = Pong;".to_string(),
        ],
        layer: 0,
        names: vec!["t.tl".to_string()],
    };
    let parsed = parse_inputs(&inputs, &scheme);
    assert_eq!(parsed.types.len(), 1);
    assert_eq!(parsed.funcs.len(), 1);
    let ping = &parsed.funcs["pong"];
    assert_eq!(ping.ctors[0].name, "ping");
    assert_eq!(ping.ctors[0].params.len(), 1);
    assert_eq!(parsed.enums.len(), 2);
    assert!(parsed.enums.iter().any(|e| e.contains("mtpc_ping") && e.contains("0x7abe77ec")));
}

#[test]
fn result_types_keep_first_seen_order() {
    let scheme = test_scheme();
    let inputs = TlInputs {
        lines: vec![
            "---types---".to_string(),
            "boolFalse#bc799737 = Bool;".to_string(),
            "inputPeerEmpty#7f3b18ea = InputPeer;".to_string(),
            "boolTrue#997275b5 = Bool;".to_string(),
        ],
        layer: 0,
        names: vec!["t.tl".to_string()],
    };
    let parsed = parse_inputs(&inputs, &scheme);
    let keys: Vec<&str> = parsed.types.keys().map(|k| k.as_str()).collect();
    assert_eq!(keys, vec!["bool", "inputPeer"]);
    let names: Vec<&str> = parsed.types["bool"].ctors.iter().map(|c| c.name.as_str()).collect();
    assert_eq!(names, vec!["boolFalse", "boolTrue"]);
}

#[test]
fn bad_line_is_reported_and_skipped() {
    let scheme = test_scheme();
    let inputs = TlInputs {
        lines: vec!["---types---".to_string(), "this is not a declaration".to_string()],
        layer: 0,
        names: vec!["t.tl".to_string()],
    };
    let parsed = parse_inputs(&inputs, &scheme);
    assert!(parsed.types.is_empty());
    assert_eq!(parsed.warnings, vec!["Bad line found: this is not a declaration".to_string()]);
}

#[test]
fn short_contact_line_mismatches_its_id() {
    let scheme = test_scheme();
    let inputs = TlInputs {
        lines: vec![
            "---types---".to_string(),
            "inputPhoneContact#6a1dc4be flags:# client_id:long phone:string note:flags.0?TextWithEntities = InputContact;".to_string(),
        ],
        layer: 0,
        names: vec!["t.tl".to_string()],
    };
    let parsed = parse_inputs(&inputs, &scheme);
    assert!(parsed.types.is_empty());
    assert_eq!(parsed.warnings.len(), 1);
    assert!(parsed.warnings[0].contains("counted bb09015c mismatch with provided 6a1dc4be"));
}

#[test]
fn parse_reports_tag_diagnostics() {
    let scheme = test_scheme();
    let inputs = TlInputs {
        lines: vec![
            "---types---".to_string(),
            "// @description works for bots only. yes".to_string(),
            "boolFalse#bc799737 = Bool;".to_string(),
            "boolTrue#997275b5 = Bool;".to_string(),
        ],
        layer: 0,
        names: vec!["t.tl".to_string()],
    };
    let (parsed, notes) = tl_codegen::parser::try_parse_inputs_noting(&inputs, &scheme).unwrap();
    assert_eq!(parsed.types["bool"].ctors.len(), 2);
    assert_eq!(
        notes,
        vec![
            "WARNING: Found \"for bots only\" in \"works for bots only. yes\"".to_string(),
            "WARNING: Found \"bots only\" in \"works for bots only. yes\"".to_string(),
        ]
    );
}
