use tl_codegen::config::{CodegenScheme, Prefixes};
use tl_codegen::ir::Scheme;
use tl_codegen::resolve::{split_outer_template, Process, Resolver};

fn scheme() -> CodegenScheme {
    CodegenScheme {
        prefixes: Prefixes {
            type_: "MTP".to_string(),
            data: "MTPD".to_string(),
            id: "mtpc".to_string(),
            construct: "MTP_".to_string(),
        },
        builtin: vec!["int".to_string(), "long".to_string()],
        builtin_templates: vec!["vector".to_string(), "flags".to_string()],
        ..CodegenScheme::default()
    }
}

#[test]
fn prefixes() {
    let s = scheme();
    let r = Resolver::new(&s);
    assert_eq!(r.full_type_name("ns.cons"), "MTPns_cons");
    assert_eq!(r.full_data_name("ns.cons"), "MTPDns_cons");
    assert_eq!(r.full_bare_type_name("Box").unwrap(), "MTPbox");
}

#[test]
fn builtin_vector() {
    let s = scheme();
    let r = Resolver::new(&s);
    let parsed = Scheme::default();
    let out = r.handle_template("Vector<int>", &parsed, Process::FullType).unwrap();
    assert_eq!(out, "Vector<MTPint>");
}

#[test]
fn split_outer_template_splits_at_first_angle() {
    let v: Vec<char> = "Vector<Vector<int>>".chars().collect();
    let (outer, inner) = split_outer_template(&v).unwrap();
    assert_eq!(outer.iter().collect::<String>(), "Vector");
    assert_eq!(inner.iter().collect::<String>(), "Vector<int>");
    let plain: Vec<char> = "int".chars().collect();
    assert!(split_outer_template(&plain).is_none());
}
