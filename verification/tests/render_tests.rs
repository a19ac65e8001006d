use allocsite::render::{render_excerpt, render_report, usize_to_dec};

#[test]
fn decimal_digits_exact() {
    assert_eq!(usize_to_dec(0), b"0".to_vec());
    assert_eq!(usize_to_dec(7), b"7".to_vec());
    assert_eq!(usize_to_dec(417), b"417".to_vec());
    assert_eq!(usize_to_dec(1000), b"1000".to_vec());
}

#[test]
fn report_block_exact_bytes_plain() {
    let name = b"Foo".to_vec();
    let layout = b"struct Foo {\n};".to_vec();
    let path = b"a.c".to_vec();
    let t = b"void f()\n{\n    int x;\n    return 0;\n}".to_vec();
    let rs: Vec<(usize, usize)> = vec![];
    let block = render_report(&name, &layout, &path, 3, &t, &rs, false).expect("has a brace");
    let expected = "======== Found allocation site for: struct Foo ========\n\n\
                    struct Foo {\n};\n\n\
                    a.c:3\n\
                    void f()\n{\n...\n    return 0;\n}\n\n";
    assert_eq!(String::from_utf8(block).unwrap(), expected);
}

#[test]
fn report_without_brace_is_skipped() {
    let t = b"no function body here".to_vec();
    let rs: Vec<(usize, usize)> = vec![];
    assert!(render_report(&b"X".to_vec(), &b"".to_vec(), &b"p.c".to_vec(), 1, &t, &rs, false)
        .is_none());
}

#[test]
fn highlight_wraps_span_on_terminal() {
    let t = b"abcd".to_vec();
    let rs = vec![(1usize, 3usize)];
    let out = render_excerpt(&t, &rs, 0, true);
    assert_eq!(out, b"a\x1b[1mbc\x1b[0md\n".to_vec());
}

#[test]
fn highlight_suppressed_off_terminal() {
    let t = b"abcd".to_vec();
    let rs = vec![(1usize, 3usize)];
    let out = render_excerpt(&t, &rs, 0, false);
    assert_eq!(out, b"abcd\n".to_vec());
}

#[test]
fn bold_path_on_terminal() {
    let name = b"Foo".to_vec();
    let layout = b"struct Foo {\n};".to_vec();
    let path = b"a.c".to_vec();
    let t = b"void f()\n{\n}".to_vec();
    let rs: Vec<(usize, usize)> = vec![];
    let block = render_report(&name, &layout, &path, 1, &t, &rs, true).expect("has a brace");
    let s = String::from_utf8(block).unwrap();
    assert!(s.contains("\x1b[1ma.c\x1b[0m:1\n"));
}

#[test]
fn gap_marker_between_kept_runs() {
    let t = b"int g(int a)\n{\n    int b;\n    int c;\n    int d;\n    b = a;\n    return b;\n}"
        .to_vec();
    // A span starting inside the `b = a;` line.
    let off = String::from_utf8(t.clone()).unwrap().find("b = a").unwrap();
    let rs = vec![(off, off + 1)];
    let out = render_excerpt(&t, &rs, 1, false);
    let s = String::from_utf8(out).unwrap();
    assert_eq!(s, "int g(int a)\n{\n...\n    b = a;\n    return b;\n}\n");
}
