use allocsite::bytes::{bytes_eq, contains_subslice};
use allocsite::corpus::{compile_excludes, select_paths};
use allocsite::lines::byte_offset_to_line_number;
use allocsite::prefilter::might_match;

fn paths(ps: &[&str]) -> Vec<Vec<u8>> {
    ps.iter().map(|p| p.as_bytes().to_vec()).collect()
}

#[test]
fn excluded_glob_path_never_selected() {
    let ps = paths(&["drivers/net/a.c", "fs/ext4/b.c", "drivers/gpu/c.h"]);
    let ex = compile_excludes(&paths(&["drivers/**"])).expect("valid glob");
    let kept = select_paths(&ps, &ex);
    assert_eq!(kept, paths(&["fs/ext4/b.c"]));
}

#[test]
fn extension_rule_keeps_only_c_and_h() {
    let ps = paths(&["a.c", "b.h", "c.txt", "d", "e.cpp"]);
    let ex = compile_excludes(&paths(&[])).expect("empty exclude list");
    let kept = select_paths(&ps, &ex);
    assert_eq!(kept, paths(&["a.c", "b.h"]));
}

#[test]
fn hidden_components_are_skipped() {
    let ps = paths(&[".hidden.c", "dir/.git/a.c", "ok/b.c"]);
    let ex = compile_excludes(&paths(&[])).expect("empty exclude list");
    let kept = select_paths(&ps, &ex);
    assert_eq!(kept, paths(&["ok/b.c"]));
}

#[test]
fn character_class_glob_matches() {
    let ps = paths(&["mm/slab1.c", "mm/slab2.c", "mm/slub.c"]);
    let ex = compile_excludes(&paths(&["mm/slab[0-9].c"])).expect("valid glob");
    let kept = select_paths(&ps, &ex);
    assert_eq!(kept, paths(&["mm/slub.c"]));
}

#[test]
fn invalid_glob_is_rejected() {
    assert!(compile_excludes(&paths(&["a[", "b.c"])).is_none());
}

#[test]
fn no_paths_selected_is_clean() {
    let ps: Vec<Vec<u8>> = vec![];
    let ex = compile_excludes(&paths(&[])).expect("empty exclude list");
    assert!(select_paths(&ps, &ex).is_empty());
}

#[test]
fn prefilter_requires_every_identifier() {
    let content = b"struct Foo *p; p = kmalloc(sz, GFP_KERNEL);".to_vec();
    assert!(might_match(&content, &paths(&["Foo", "kmalloc"])));
    assert!(!might_match(&content, &paths(&["Foo", "vzalloc"])));
    assert!(might_match(&content, &paths(&[])));
}

#[test]
fn substring_search_finds_and_misses() {
    let hay = b"abcabc".to_vec();
    assert!(contains_subslice(&hay, &b"cab".to_vec()));
    assert!(contains_subslice(&hay, &b"".to_vec()));
    assert!(!contains_subslice(&hay, &b"abd".to_vec()));
    assert!(bytes_eq(&hay, &b"abcabc".to_vec()));
    assert!(!bytes_eq(&hay, &b"abcab".to_vec()));
}

#[test]
fn line_numbers_are_one_based() {
    let content = b"a\nbb\nc".to_vec();
    assert_eq!(byte_offset_to_line_number(&content, 0), Some(1));
    assert_eq!(byte_offset_to_line_number(&content, 1), Some(1));
    assert_eq!(byte_offset_to_line_number(&content, 2), Some(2));
    assert_eq!(byte_offset_to_line_number(&content, 5), Some(3));
    assert_eq!(byte_offset_to_line_number(&content, 6), None);
}
