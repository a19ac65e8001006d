use allocsite::catalog::{build_catalog, StructType, TypeCatalog};
use allocsite::debuginfo::load_dwarf;
use allocsite::flags::compile_regex;
use allocsite::pipeline::{scan_file, thread_count_allowed, ScanConfig};

fn foo_catalog() -> TypeCatalog {
    let raw = vec![StructType {
        name: b"Foo".to_vec(),
        size: 24,
        layout: b"struct Foo {\n    int x;\n};".to_vec(),
    }];
    build_catalog(&raw, 0, 100)
}

fn cfg(flags: Option<&str>, reject_missing: bool, quiet: bool, tty: bool) -> ScanConfig {
    ScanConfig {
        allocator_pattern: b"k[mz]alloc".to_vec(),
        required_idents: vec![b"alloc".to_vec()],
        flags_regex: flags.map(|f| compile_regex(&f.as_bytes().to_vec()).expect("valid regex")),
        reject_missing_flags: reject_missing,
        quiet,
        tty,
    }
}

fn scan(content: &str, c: &ScanConfig) -> Vec<String> {
    let out = scan_file(
        &content.as_bytes().to_vec(),
        &b"f.c".to_vec(),
        &foo_catalog(),
        c,
    )
    .expect("scan should not be skipped");
    assert!(!out.degraded);
    out.blocks.into_iter().map(|b| String::from_utf8(b).unwrap()).collect()
}

const SITE_KERNEL: &str =
    "void f(void)\n{\n    struct Foo *p;\n    p = kmalloc(sz, GFP_KERNEL);\n}\n";
const SITE_ATOMIC: &str =
    "void f(void)\n{\n    struct Foo *p;\n    p = kmalloc(sz, GFP_ATOMIC);\n}\n";

#[test]
fn synthetic_alloc_site_reported_once() {
    let blocks = scan(SITE_KERNEL, &cfg(None, false, false, false));
    assert_eq!(blocks.len(), 1);
    let b = &blocks[0];
    assert!(b.starts_with("======== Found allocation site for: struct Foo ========\n"));
    assert!(b.contains("struct Foo {\n    int x;\n};"));
    assert!(b.contains("f.c:1\n"));
    assert!(b.contains("kmalloc"));
}

#[test]
fn synthetic_alloc_site_spans_highlighted() {
    let blocks = scan(SITE_KERNEL, &cfg(None, false, false, true));
    assert_eq!(blocks.len(), 1);
    let b = &blocks[0];
    assert!(b.contains("\x1b[1mFoo\x1b[0m"));
    assert!(b.contains("\x1b[1mp\x1b[0m"));
    assert!(b.contains("\x1b[1mkmalloc\x1b[0m"));
    assert!(b.contains("\x1b[1mGFP_KERNEL\x1b[0m"));
}

#[test]
fn no_ansi_escape_off_terminal() {
    let blocks = scan(SITE_KERNEL, &cfg(None, false, false, false));
    assert_eq!(blocks.len(), 1);
    assert!(!blocks[0].as_bytes().contains(&0x1b));
}

#[test]
fn quiet_mode_prints_bare_name() {
    let blocks = scan(SITE_KERNEL, &cfg(None, false, true, false));
    assert_eq!(blocks, vec!["Foo\n".to_string()]);
}

#[test]
fn flags_regex_excludes_other_flag() {
    let c = cfg(Some("GFP_ATOMIC"), false, false, false);
    assert!(scan(SITE_KERNEL, &c).is_empty());
}

#[test]
fn flags_regex_includes_matching_flag() {
    let c = cfg(Some("GFP_ATOMIC"), false, false, false);
    assert_eq!(scan(SITE_ATOMIC, &c).len(), 1);
}

#[test]
fn one_argument_call_matches_only_its_shape() {
    let site = "void f(void)\n{\n    struct Foo *p;\n    p = kzalloc(sz);\n}\n";
    assert_eq!(scan(site, &cfg(None, false, false, false)).len(), 1);
}

#[test]
fn missing_flags_policy_skip_or_reject() {
    let site = "void f(void)\n{\n    struct Foo *p;\n    p = kzalloc(sz);\n}\n";
    // A one-argument call carries no flags: the configured policy decides.
    assert_eq!(scan(site, &cfg(Some("GFP_ATOMIC"), false, false, false)).len(), 1);
    assert!(scan(site, &cfg(Some("GFP_ATOMIC"), true, false, false)).is_empty());
}

#[test]
fn three_argument_call_matches_only_its_shape() {
    let site = "void f(void)\n{\n    struct Foo *p;\n    p = kmalloc(n, sz, GFP_KERNEL);\n}\n";
    assert_eq!(scan(site, &cfg(None, false, false, false)).len(), 1);
}

#[test]
fn four_argument_call_matches_no_shape() {
    let site = "void f(void)\n{\n    struct Foo *p;\n    p = kmalloc(n, sz, x, GFP_KERNEL);\n}\n";
    assert!(scan(site, &cfg(None, false, false, false)).is_empty());
}

#[test]
fn join_condition_rejects_differently_named_assignment() {
    let site = "void f(void)\n{\n    struct Foo *p;\n    q = kmalloc(sz, GFP_KERNEL);\n}\n";
    assert!(scan(site, &cfg(None, false, false, false)).is_empty());
}

#[test]
fn unknown_struct_name_not_reported() {
    let site = "void f(void)\n{\n    struct Bar *p;\n    p = kmalloc(sz, GFP_KERNEL);\n}\n";
    assert!(scan(site, &cfg(None, false, false, false)).is_empty());
}

#[test]
fn allocator_name_pattern_is_enforced() {
    let site = "void f(void)\n{\n    struct Foo *p;\n    p = vmalloc(sz, GFP_KERNEL);\n}\n";
    assert!(scan(site, &cfg(None, false, false, false)).is_empty());
}

#[test]
fn prefilter_short_circuits_file() {
    // No identifier `alloc` anywhere: the file yields nothing.
    let site = "void f(void)\n{\n    struct Foo *p;\n}\n";
    assert!(scan(site, &cfg(None, false, false, false)).is_empty());
}

#[test]
fn excerpt_elides_unrelated_lines() {
    let site = "void f(void)\n{\n    int a;\n    int b;\n    int c;\n    int d;\n    \
                struct Foo *p;\n    p = kmalloc(sz, GFP_KERNEL);\n}\n";
    let blocks = scan(site, &cfg(None, false, false, false));
    assert_eq!(blocks.len(), 1);
    assert!(blocks[0].contains("...\n"));
    assert!(!blocks[0].contains("int a;"));
}

#[test]
fn undecodable_binary_yields_no_catalog() {
    assert!(load_dwarf(&b"not an object file".to_vec()).is_none());
}

#[test]
fn thread_ceiling_enforced() {
    assert!(thread_count_allowed(1));
    assert!(thread_count_allowed(1000));
    assert!(!thread_count_allowed(1001));
}

#[test]
fn report_block_exact_bytes_end_to_end() {
    let blocks = scan(SITE_KERNEL, &cfg(None, false, false, false));
    let expected = "======== Found allocation site for: struct Foo ========\n\n\
                    struct Foo {\n    int x;\n};\n\n\
                    f.c:1\n\
                    void f(void)\n{\n    struct Foo *p;\n    p = kmalloc(sz, GFP_KERNEL);\n}\n\n";
    assert_eq!(blocks, vec![expected.to_string()]);
}

#[test]
fn two_sites_in_one_file_both_reported() {
    let site = "void f(void)\n{\n    struct Foo *p;\n    p = kmalloc(sz, GFP_KERNEL);\n}\n\
                void g(void)\n{\n    struct Foo *q;\n    q = kzalloc(sz, GFP_ATOMIC);\n}\n";
    let blocks = scan(site, &cfg(None, false, false, false));
    assert_eq!(blocks.len(), 2);
    let joined = blocks.join("");
    assert!(joined.contains("f.c:1\n"));
    assert!(joined.contains("f.c:6\n"));
    assert!(joined.contains("kzalloc"));
}

#[test]
fn invalid_utf8_content_is_replaced_and_scanned() {
    // An invalid byte in a comment: the file is decoded with lossy
    // replacement and still scanned; offsets follow the replaced text.
    let mut site: Vec<u8> = Vec::new();
    site.extend_from_slice(b"/* ");
    site.push(0xFF);
    site.extend_from_slice(
        b" */\nvoid f(void)\n{\n    struct Foo *p;\n    p = kmalloc(sz, GFP_KERNEL);\n}\n",
    );
    let out = scan_file(&site, &b"f.c".to_vec(), &foo_catalog(), &cfg(None, false, false, false))
        .expect("scan should not be skipped");
    assert_eq!(out.blocks.len(), 1);
    let b = String::from_utf8(out.blocks[0].clone()).expect("lossy output is valid UTF-8");
    assert!(b.contains("f.c:2\n"));
    assert!(b.contains("kmalloc"));
}
