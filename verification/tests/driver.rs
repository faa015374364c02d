use tl_codegen::driver::outputs_ok_exec;
use tl_codegen::config::{CodegenScheme, Conversion, DumpToText};
use tl_codegen::driver::{generate_outputs, needs_write, output_files, timestamp_text, Outputs};
use tl_codegen::ir::Scheme;

#[test]
fn timestamp_names_the_layer() {
    assert_eq!(timestamp_text(229), "layer 229\n");
    assert_eq!(timestamp_text(0), "layer 0\n");
}

#[test]
fn write_only_when_changed() {
    assert!(!needs_write(Some("same"), "same"));
    assert!(needs_write(Some("old"), "new"));
    assert!(needs_write(None, "new"));
}

#[test]
fn outputs_follow_configured_sections() {
    let cfg = CodegenScheme::default();
    let o = generate_outputs(&Scheme::default(), &cfg);
    assert!(o.dump_header.is_none() && o.dump_source.is_none());
    assert!(o.conversion_from_header.is_none() && o.conversion_to_source.is_none());
    assert_eq!(o.source, "");
    let files = output_files("out/scheme", &o, cfg.write_conversion());
    let paths: Vec<&str> = files.iter().map(|(p, _)| p.as_str()).collect();
    assert_eq!(paths, vec!["out/scheme.h", "out/scheme.cpp"]);

    let mut cfg2 = CodegenScheme::default();
    cfg2.dump_to_text = Some(DumpToText { header: "mtproto/details/mtproto_dump_to_text.h".to_string() });
    cfg2.conversion = Some(Conversion {
        header: "conv.h".to_string(),
        namespace: "td_api".to_string(),
        builtin_additional: Vec::new(),
        builtin_header_from: String::new(),
        builtin_header_to: String::new(),
    });
    let o2 = generate_outputs(&Scheme::default(), &cfg2);
    let files2 = output_files("s", &o2, cfg2.write_conversion());
    let paths2: Vec<&str> = files2.iter().map(|(p, _)| p.as_str()).collect();
    assert_eq!(
        paths2,
        vec![
            "s.h",
            "s.cpp",
            "s-dump_to_text.h",
            "s-dump_to_text.cpp",
            "s-conversion-from.h",
            "s-conversion-from.cpp",
            "s-conversion-to.h",
            "s-conversion-to.cpp"
        ]
    );
    let skipped = output_files("s", &o2, false);
    assert_eq!(skipped.len(), 4);
}

#[test]
fn default_outputs_are_empty() {
    let o = Outputs::default();
    assert_eq!(o.header, "");
    assert!(o.dump_header.is_none());
}

#[test]
fn emit_preconditions_are_checked() {
    let mut cfg = CodegenScheme::default();
    assert!(outputs_ok_exec(&Scheme::default(), &cfg));
    cfg.sections = vec!["read-write".to_string()];
    cfg.builtin = vec!["int".to_string()];
    assert!(outputs_ok_exec(&Scheme::default(), &cfg));
    cfg.builtin = vec![String::new()];
    assert!(!outputs_ok_exec(&Scheme::default(), &cfg));
    cfg.builtin = vec!["élan".to_string()];
    assert!(!outputs_ok_exec(&Scheme::default(), &cfg));
}

#[test]
fn generation_is_deterministic() {
    let mut cfg = CodegenScheme::default();
    cfg.prefixes.type_ = "MTP".to_string();
    let mut s = Scheme::default();
    s.layer = 7;
    s.input_names = vec!["a.tl".to_string()];
    let a = generate_outputs(&s, &cfg);
    let b = generate_outputs(&s, &cfg);
    assert_eq!(a.header, b.header);
    assert_eq!(a.source, b.source);
}
