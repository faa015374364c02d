use tl_codegen::loc::{bucket, extension, is_skipped_dir, is_skipped_file, line_count, Bucket, Counts};

#[test]
fn buckets_by_lowercased_extension() {
    assert_eq!(bucket("main.rs"), Bucket::Rust);
    assert_eq!(bucket("Widget.CPP"), Bucket::Cpp);
    assert_eq!(bucket("a.h"), Bucket::Cpp);
    assert_eq!(bucket("view.mm"), Bucket::Cpp);
    assert_eq!(bucket("README.md"), Bucket::Other);
    assert_eq!(bucket("Makefile"), Bucket::Other);
    assert_eq!(bucket(".rs"), Bucket::Other);
}

#[test]
fn extension_rules() {
    assert_eq!(extension("a.tar.gz").as_deref(), Some("gz"));
    assert_eq!(extension(".gitignore"), None);
    assert_eq!(extension("noext"), None);
    assert_eq!(extension("trailing.").as_deref(), Some(""));
    assert_eq!(extension(".."), None);
}

#[test]
fn skip_rules() {
    assert!(is_skipped_dir(".git"));
    assert!(is_skipped_dir("node_modules"));
    assert!(!is_skipped_dir("src"));
    assert!(is_skipped_file("Cargo.lock"));
    assert!(!is_skipped_file("Cargo.toml"));
}

#[test]
fn line_counts_and_totals() {
    assert_eq!(line_count(""), 0);
    assert_eq!(line_count("a\nb\n"), 2);
    assert_eq!(line_count("a\r\nb"), 2);
    let mut c = Counts::new();
    c.add(Bucket::Rust, 10);
    c.add(Bucket::Cpp, 5);
    c.add(Bucket::Cpp, 7);
    c.add(Bucket::Other, 1);
    assert_eq!((c.rust_files, c.rust_lines), (1, 10));
    assert_eq!((c.cpp_files, c.cpp_lines), (2, 12));
    assert_eq!((c.other_files, c.other_lines), (1, 1));
    assert_eq!(c.total_code(), 22);
}
