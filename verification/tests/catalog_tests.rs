use allocsite::catalog::{build_catalog, StructType};

fn st(name: &str, size: usize) -> StructType {
    StructType {
        name: name.as_bytes().to_vec(),
        size,
        layout: format!("struct {} {{\n}};", name).into_bytes(),
    }
}

#[test]
fn catalog_boundary_values() {
    // Bound is exclusive below, inclusive above: lower < size <= upper.
    let raw = vec![st("AtLower", 8), st("JustAbove", 9), st("AtUpper", 16), st("PastUpper", 17)];
    let cat = build_catalog(&raw, 8, 16);
    assert!(cat.lookup(&b"AtLower".to_vec()).is_none());
    assert!(cat.lookup(&b"JustAbove".to_vec()).is_some());
    assert!(cat.lookup(&b"AtUpper".to_vec()).is_some());
    assert!(cat.lookup(&b"PastUpper".to_vec()).is_none());
    assert_eq!(cat.len(), 2);
}

#[test]
fn catalog_lookup_preserves_fields() {
    let raw = vec![st("Foo", 24), st("Bar", 200)];
    let cat = build_catalog(&raw, 0, 100);
    let e = cat.lookup(&b"Foo".to_vec()).expect("Foo should be kept");
    assert_eq!(e.name, b"Foo".to_vec());
    assert_eq!(e.size, 24);
    assert_eq!(e.layout, b"struct Foo {\n};".to_vec());
    assert!(cat.lookup(&b"Bar".to_vec()).is_none());
}

#[test]
fn catalog_lookup_absent_name() {
    let raw = vec![st("Foo", 24)];
    let cat = build_catalog(&raw, 0, 100);
    assert!(cat.lookup(&b"Baz".to_vec()).is_none());
}

#[test]
fn catalog_empty_input() {
    let raw: Vec<StructType> = vec![];
    let cat = build_catalog(&raw, 0, 100);
    assert_eq!(cat.len(), 0);
}
