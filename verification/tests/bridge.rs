use tl_codegen::bridge::{copy_len, fingerprint};

#[test]
fn fingerprint_mentions_crate_and_profile() {
    let f = fingerprint("0.1.0", "rustc 1.80.0 (051478957 2024-07-21)", true);
    assert!(f.starts_with("rustgram-bridge 0.1.0 / "), "{f}");
    assert!(f.ends_with(" / debug") || f.ends_with(" / release"), "{f}");
}

#[test]
fn fingerprint_exact_text() {
    assert_eq!(
        fingerprint("0.1.0", "rustc 1.80.0", false),
        "rustgram-bridge 0.1.0 / rustc 1.80.0 / release"
    );
    assert_eq!(fingerprint("2.3.4", "unknown rustc", true), "rustgram-bridge 2.3.4 / unknown rustc / debug");
}

#[test]
fn copy_len_leaves_room_for_nul() {
    assert_eq!(copy_len(40, 0), None);
    assert_eq!(copy_len(40, 1), Some(0));
    assert_eq!(copy_len(40, 10), Some(9));
    assert_eq!(copy_len(40, 41), Some(40));
    assert_eq!(copy_len(40, 256), Some(40));
}
