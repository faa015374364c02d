use tl_codegen::config::{insert_name, insert_pair, CodegenScheme, Namespaces, Prefixes, PrimitiveTypes};

#[test]
fn defaults_match_python_get_fallbacks() {
    let s = CodegenScheme::default();
    assert!(!s.read_write_section());
    assert!(!s.write_conversion());
    assert!(!s.write_serialization());
    assert_eq!(s.id_prefix(), "_");
    assert_eq!(s.creator_namespace_full(), "");
    assert!(!s.is_builtin_type("int"));
}

#[test]
fn telegram_scheme_shape() {
    let s = CodegenScheme {
        namespaces: Namespaces { global: String::new(), creator: "MTP::details".to_string() },
        prefixes: Prefixes {
            type_: "MTP".to_string(),
            data: "MTPD".to_string(),
            id: "mtpc".to_string(),
            construct: "MTP_".to_string(),
        },
        types: PrimitiveTypes {
            prime: "mtpPrime".to_string(),
            type_id: "mtpTypeId".to_string(),
            buffer: "mtpBuffer".to_string(),
        },
        sections: vec!["read-write".to_string()],
        optimize_single_data: true,
        ..CodegenScheme::default()
    };
    assert!(s.read_write_section());
    assert_eq!(s.id_prefix(), "mtpc_");
    assert_eq!(s.creator_namespace_full(), "MTP::details");
}

#[test]
fn creator_namespace_joins_with_colons() {
    let mut s = CodegenScheme::default();
    s.namespaces.global = "MTP".to_string();
    s.namespaces.creator = "details".to_string();
    assert_eq!(s.creator_namespace_full(), "MTP::details");
    s.namespaces.creator = String::new();
    assert_eq!(s.creator_namespace_full(), "MTP");
}

#[test]
fn builtin_type_membership() {
    let mut s = CodegenScheme::default();
    s.builtin = vec!["int".to_string(), "long".to_string()];
    s.builtin_templates = vec!["vector".to_string()];
    assert!(s.is_builtin_type("int"));
    assert!(s.is_builtin_type("vector"));
    assert!(!s.is_builtin_type("string"));
    assert!(!s.optimize_single_data());
}

#[test]
fn missing_required_types_only_when_asked_for() {
    let mut s = CodegenScheme::default();
    assert!(!s.missing_required_types());
    s.sections = vec!["read-write".to_string()];
    assert!(s.missing_required_types());
    s.types = PrimitiveTypes {
        prime: "mtpPrime".to_string(),
        type_id: "mtpTypeId".to_string(),
        buffer: "mtpBuffer".to_string(),
    };
    assert!(!s.missing_required_types());
    s.types.buffer = String::new();
    assert!(s.missing_required_types());
}

#[test]
fn insert_pair_keeps_first_place_and_last_value() {
    let mut t: Vec<(String, String)> = Vec::new();
    insert_pair(&mut t, "b".to_string(), "1".to_string());
    insert_pair(&mut t, "a".to_string(), "2".to_string());
    insert_pair(&mut t, "b".to_string(), "3".to_string());
    assert_eq!(t, vec![("b".to_string(), "3".to_string()), ("a".to_string(), "2".to_string())]);
}

#[test]
fn insert_name_drops_repeats() {
    let mut v: Vec<String> = Vec::new();
    insert_name(&mut v, "int".to_string());
    insert_name(&mut v, "long".to_string());
    insert_name(&mut v, "int".to_string());
    assert_eq!(v, vec!["int".to_string(), "long".to_string()]);
}
