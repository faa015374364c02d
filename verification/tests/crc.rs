use tl_codegen::config::CodegenScheme;
use tl_codegen::crc::{clean_line, format_id, type_id, verify_or_compute};

fn bytes_scheme() -> CodegenScheme {
    CodegenScheme {
        synonyms: vec![("bytes".to_string(), "string".to_string())],
        ..CodegenScheme::default()
    }
}

#[test]
fn vector_id_matches_known_value() {
    let scheme = bytes_scheme();
    let cleaned = clean_line("vector {t:Type} # [ t ] = Vector t", &scheme);
    assert_eq!(format_id(type_id(&cleaned)), "1cb5c415");
}

#[test]
fn format_id_pads_to_eight_lowercase_digits() {
    assert_eq!(format_id(0), "00000000");
    assert_eq!(format_id(0xABC), "00000abc");
    assert_eq!(format_id(0xFFFF_FFFF), "ffffffff");
}

#[test]
fn type_id_is_crc32_of_the_text() {
    assert_eq!(type_id("123456789"), 0xCBF4_3926);
    assert_eq!(type_id(""), 0);
}

#[test]
fn known_constructor_ids() {
    let scheme = bytes_scheme();
    let t = clean_line("boolTrue = Bool", &scheme);
    assert_eq!(format_id(type_id(&t)), "997275b5");
    let f = clean_line("boolFalse = Bool", &scheme);
    assert_eq!(format_id(type_id(&f)), "bc799737");
}

#[test]
fn verify_or_compute_accepts_matching_and_warns_on_mismatch() {
    let scheme = bytes_scheme();
    let mut warnings = Vec::new();
    assert_eq!(verify_or_compute("boolTrue = Bool", Some("997275b5"), &scheme, &mut warnings), Some(0x997275b5));
    assert!(warnings.is_empty());
    assert_eq!(verify_or_compute("boolTrue = Bool", None, &scheme, &mut warnings), Some(0x997275b5));
    assert!(warnings.is_empty());
    assert_eq!(verify_or_compute("boolTrue = Bool", Some("deadbeef"), &scheme, &mut warnings), None);
    assert_eq!(warnings.len(), 1);
    assert!(warnings[0].contains("mismatch"));
}

#[test]
fn clean_line_drops_optional_true_params() {
    let scheme = CodegenScheme::default();
    let cleaned = clean_line("inputMediaPhoto flags:# spoiler:flags.1?true id:InputPhoto = InputMedia", &scheme);
    assert_eq!(cleaned, "inputMediaPhoto flags:# id:InputPhoto = InputMedia");
    let kept = clean_line("msg flags:# note:flags.0?string = Msg", &scheme);
    assert_eq!(kept, "msg flags:# note:flags.0?string = Msg");
    let two = clean_line("a flags2:# x:flags2.3?true y:flags.10?true = A", &scheme);
    assert_eq!(two, "a flags2:# = A");
}

#[test]
fn format_id_round_trips() {
    for id in [0u32, 1, 0xabc, 0x1cb5c415, 0x8000_0000, 0xFFFF_FFFF] {
        let text = format_id(id);
        assert_eq!(text.len(), 8);
        assert_eq!(u32::from_str_radix(&text, 16), Ok(id));
    }
    assert_eq!(format_id(0xabc), "00000abc");
}
