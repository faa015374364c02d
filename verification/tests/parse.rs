use tl_codegen::parse::{normalized_bare_name, normalized_name, optional_in_vector, parse_ctor_header, parse_raw_param, RawParam};

#[test]
fn ctor_regex_matches_real_lines() {
    let h = parse_ctor_header("inputPeerChannel#27bcbbfc channel_id:long access_hash:long = InputPeer;").unwrap();
    assert_eq!(h.name, "inputPeerChannel");
    assert_eq!(h.id_hex.as_deref(), Some("27bcbbfc"));
    assert_eq!(h.result, "InputPeer");

    let bare = parse_ctor_header("tlsBlockDomain = TlsBlock;").unwrap();
    assert_eq!(bare.id_hex, None);
}

#[test]
fn flags_and_vectors() {
    assert_eq!(parse_raw_param("flags:#"), Some(RawParam::Flags));
    assert_eq!(
        parse_raw_param("spoiler:flags.2?true"),
        Some(RawParam::Flagged {
            name: "spoiler".into(),
            flag: "flags".into(),
            bit: 2,
            inner: "true".into()
        })
    );
    assert_eq!(
        parse_raw_param("file:Vector<InputDocument>"),
        Some(RawParam::Plain {
            name: "file".into(),
            ty: "Vector<InputDocument>".into()
        })
    );
}

#[test]
fn bare_names() {
    assert_eq!(normalized_bare_name("Box").unwrap(), "box");
    assert_eq!(normalized_bare_name("ns.Box").unwrap(), "ns_box");
    assert!(normalized_bare_name("a.b.c").is_err());
}

#[test]
fn normalized_name_replaces_every_dot() {
    assert_eq!(normalized_name("a.b.c"), "a_b_c");
    assert_eq!(normalized_name("plain"), "plain");
}

#[test]
fn ctor_header_params_and_no_match() {
    let h = parse_ctor_header("  msgs_ack#62d6b459 msg_ids:Vector<long> = MsgsAck;  ").unwrap();
    assert_eq!(h.name, "msgs_ack");
    assert_eq!(h.params_raw.trim(), "msg_ids:Vector<long>");
    assert_eq!(h.result, "MsgsAck");
    assert!(parse_ctor_header("---functions---").is_none());
}

#[test]
fn raw_param_templates() {
    assert_eq!(
        parse_raw_param("{X:Type}"),
        Some(RawParam::TemplateDecl { var: "X".into(), bound: "Type".into() })
    );
    assert_eq!(
        parse_raw_param("query:!X"),
        Some(RawParam::TemplateUse("X".into()))
    );
    assert_eq!(parse_raw_param("bad token"), None);
}

#[test]
fn optional_in_vector_wraps_element() {
    assert_eq!(optional_in_vector("MTPVector<MTPUser>").unwrap(), "MTPVector<std::optional<MTPUser>>");
    assert_eq!(optional_in_vector("MTPint").unwrap_err(), "Bad optional vector: MTPint");
}
