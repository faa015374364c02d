use tl_codegen::tl::{line_notes, param_notes, tag_note, inputs_from_texts, is_bots_only_line, is_mobile_only_line, is_nullable_param, is_nullable_vector, param_name_tag};

#[test]
fn layer_last_wins_and_sentinel_first() {
    let files = vec![
        ("tl_test_a.tl".to_string(), "boolTrue#997275b5 = Bool;\n// LAYER 100\n".to_string()),
        ("tl_test_b.tl".to_string(), "boolFalse#bc799737 = Bool;\n// LAYER 229\n".to_string()),
    ];
    let inputs = inputs_from_texts(&files);
    assert_eq!(inputs.names, vec!["tl_test_a.tl", "tl_test_b.tl"]);
    assert_eq!(inputs.layer, 229);
    assert_eq!(inputs.lines[0], "---types---");
    assert!(inputs.lines.iter().any(|l| l.contains("boolTrue")));
    assert!(inputs.lines.iter().any(|l| l.contains("boolFalse")));
    assert!(!inputs.lines.iter().any(|l| l.contains("LAYER")));
}

#[test]
fn bots_only_tag() {
    assert!(is_bots_only_line("@description something for bots only; tail"));
    assert!(!is_bots_only_line("@description just a normal thing"));
}

#[test]
fn no_layer_keeps_zero_and_every_line() {
    let files = vec![("a.tl".to_string(), "x = X;\r\ny = Y;".to_string())];
    let inputs = inputs_from_texts(&files);
    assert_eq!(inputs.layer, 0);
    assert_eq!(inputs.lines, vec!["---types---", "x = X;", "y = Y;"]);
}

#[test]
fn param_tags() {
    assert_eq!(param_name_tag("flags"), "flags");
    assert_eq!(param_name_tag("description"), "param_description");
    assert!(is_mobile_only_line("@description a thing; for official mobile applications only"));
    assert!(!is_mobile_only_line("@description a thing"));
    assert!(is_nullable_param("@peer the peer; may be null", "peer"));
    assert!(!is_nullable_param("@peer the peer", "peer"));
    assert!(is_nullable_vector("@users the users; users may be null", "users"));
    assert!(!is_nullable_vector("@user the user; user may be null", "user"));
}

#[test]
fn bots_only_tag_needs_a_clause_break() {
    assert!(is_bots_only_line("@description Sends a thing; for bots only"));
    assert!(is_bots_only_line("@description Sends a thing; for bots only. Details follow"));
    assert!(is_bots_only_line("@description Sends a thing; bots only if set"));
    assert!(!is_bots_only_line("@description works for bots only. yes"));
    assert!(!is_bots_only_line("@description works for bots only"));
}

#[test]
fn tag_checks_report_misplaced_endings() {
    assert_eq!(
        tag_note("@description works for bots only. yes", "description", "for bots only"),
        vec!["WARNING: Found \"for bots only\" in \"works for bots only. yes\"".to_string()]
    );
    assert!(tag_note("@description a thing; for bots only", "description", "for bots only").is_empty());
    assert!(tag_note("@description bots only", "description", "bots only").is_empty());
    assert!(tag_note("@description plain text here", "description", "bots only").is_empty());
    assert_eq!(
        line_notes("@description works for bots only. yes"),
        vec![
            "WARNING: Found \"for bots only\" in \"works for bots only. yes\"".to_string(),
            "WARNING: Found \"bots only\" in \"works for bots only. yes\"".to_string(),
        ]
    );
    assert_eq!(
        param_notes("@users the list, users may be null sometimes", "users"),
        vec![
            "WARNING: Found \"users may be null\" in \"the list, users may be null sometimes\"".to_string(),
            "WARNING: Found \"may be null\" in \"the list, users may be null sometimes\"".to_string(),
        ]
    );
}
