//! Decoding struct types from a binary's debug metadata, through the `dwat`
//! crate: names, byte sizes and verbose layout text, collected into the plain
//! values the catalog is built from.
//!
//! The decoded metadata is a function of the binary image alone, so the
//! named-type set and each type's size and layout text are given names over
//! the image bytes; the collection and the catalog built from it are then
//! pinned to those names in both directions.

use vstd::prelude::*;

use dwat::dwarf::DwarfLookups;

use crate::catalog::{
    build_catalog, distinct_names, lemma_catalog_membership, size_in_bounds, StructType,
    TypeCatalog,
};

verus! {

/// The `dwat` decoded-DWARF handle, opaque to the verifier.
#[verifier::external_type_specification]
#[verifier::external_body]
pub struct ExOwnedDwarf(dwat::dwarf::OwnedDwarf);

/// The `dwat` struct-type handle, opaque to the verifier.
#[verifier::external_type_specification]
#[verifier::external_body]
pub struct ExDwatStruct(dwat::Struct);

/// Whether `dwat` decodes this binary image at all.
pub uninterp spec fn dwarf_valid(data: Seq<u8>) -> bool;

/// The binary image a decoded-DWARF handle was loaded from.
pub uninterp spec fn dwarf_data(d: dwat::dwarf::OwnedDwarf) -> Seq<u8>;

/// Whether the named struct types of this image can be enumerated.
pub uninterp spec fn structs_decodable(data: Seq<u8>) -> bool;

/// The set of named struct types of this image.
pub uninterp spec fn dwarf_struct_names(data: Seq<u8>) -> Set<Seq<u8>>;

/// The byte size of the named struct type of this image, where the metadata
/// gives one.
pub uninterp spec fn dwarf_struct_size(data: Seq<u8>, name: Seq<u8>) -> Option<usize>;

/// The verbose layout text of the named struct type of this image, where the
/// metadata gives one.
pub uninterp spec fn dwarf_struct_layout(data: Seq<u8>, name: Seq<u8>) -> Option<Seq<u8>>;

/// The byte size `dwat` computes for a struct handle under a DWARF handle.
pub uninterp spec fn dwat_size_of(s: dwat::Struct, d: dwat::dwarf::OwnedDwarf) -> Option<usize>;

/// The layout text `dwat` formats for a struct handle under a DWARF handle.
pub uninterp spec fn dwat_layout_of(s: dwat::Struct, d: dwat::dwarf::OwnedDwarf) -> Option<
    Seq<u8>,
>;

/// The struct handle was decoded from this DWARF handle. `dwat` panics when
/// a handle is paired with a foreign DWARF, so the per-handle readers demand
/// the pairing.
pub uninterp spec fn from_dwarf(s: dwat::Struct, d: dwat::dwarf::OwnedDwarf) -> bool;

/// `dwat`'s member-formatting walk terminates for every named struct type of
/// this image. The walk recurses through the image's type graph with no
/// cycle guard, so on a crafted image with a self-referential type chain it
/// does not return; the assumption cannot be tested at run time and is
/// carried to the public API as a precondition.
pub uninterp spec fn image_tame(data: Seq<u8>) -> bool;

/// The handle-level form of `image_tame`: the formatting walk terminates for
/// every named struct type of this handle's image.
pub uninterp spec fn dwarf_tame(d: dwat::dwarf::OwnedDwarf) -> bool;

/// Relies on dwat::dwarf::OwnedDwarf::load: a deterministic decode of the
/// given binary image, succeeding exactly on the images it accepts; the
/// returned handle carries the image it was loaded from, so the handle is
/// tame exactly when the image is.
#[verifier::external_body]
pub fn load_dwarf(data: &Vec<u8>) -> (r: Option<dwat::dwarf::OwnedDwarf>)
    ensures
        r is Some <==> dwarf_valid(data@),
        r matches Some(d) ==> dwarf_data(d) == data@,
        r matches Some(d) ==> (dwarf_tame(d) <==> image_tame(data@)),
{
    dwat::dwarf::OwnedDwarf::load(data.as_slice()).ok()
}

/// Relies on dwat's DwarfLookups::get_named_types_map for dwat::Struct: the
/// named struct types of the image, keyed by name, succeeding exactly when
/// the image's entries can be walked. A map's keys are unique, so the names
/// are pairwise distinct and cover the image's named struct types; for each
/// name the handle is the map's, so its size and layout are the per-name
/// ones. Only the order of the returned pairs is arbitrary.
#[verifier::external_body]
pub(crate) fn struct_entries(d: &dwat::dwarf::OwnedDwarf) -> (r: Option<
    Vec<(Vec<u8>, dwat::Struct)>,
>)
    ensures
        r is Some <==> structs_decodable(dwarf_data(*d)),
        r matches Some(v) ==> forall|i: int, j: int|
            0 <= i < j < v@.len() ==> (#[trigger] v@[i]).0@ != (#[trigger] v@[j]).0@,
        r matches Some(v) ==> forall|i: int|
            0 <= i < v@.len() ==> dwarf_struct_names(dwarf_data(*d)).contains(
                (#[trigger] v@[i]).0@,
            ),
        r matches Some(v) ==> forall|n: Seq<u8>|
            #[trigger] dwarf_struct_names(dwarf_data(*d)).contains(n) ==> exists|i: int|
                0 <= i < v@.len() && (#[trigger] v@[i]).0@ == n,
        r matches Some(v) ==> forall|i: int|
            0 <= i < v@.len() ==> dwat_size_of((#[trigger] v@[i]).1, *d) == dwarf_struct_size(
                dwarf_data(*d),
                v@[i].0@,
            ) && dwat_layout_of(v@[i].1, *d) == dwarf_struct_layout(dwarf_data(*d), v@[i].0@),
        r matches Some(v) ==> forall|i: int|
            0 <= i < v@.len() ==> from_dwarf((#[trigger] v@[i]).1, *d),
{
    let map = d.get_named_types_map::<dwat::Struct>().ok()?;
    Some(map.into_iter().map(|(k, v)| (k.into_bytes(), v)).collect())
}

/// Relies on dwat::Struct::byte_size: a direct attribute read, deterministic
/// in the two handles. The pairing is required: on a handle from a foreign
/// DWARF, dwat can panic resolving the handle's unit.
#[verifier::external_body]
pub(crate) fn struct_byte_size(s: &dwat::Struct, d: &dwat::dwarf::OwnedDwarf) -> (r: Option<
    usize,
>)
    requires
        from_dwarf(*s, *d),
    ensures
        r == dwat_size_of(*s, *d),
{
    s.byte_size(d).ok()
}

/// Relies on dwat::Struct::to_string_verbose at verbosity 1: deterministic
/// in the two handles. The pairing is required (a foreign pairing can
/// panic), and so is a tame image: the formatter recurses through the type
/// graph without a cycle guard and does not return on a self-referential
/// type chain. Inner formatting errors are swallowed by dwat, so the text
/// may be a prefix of the full layout; the naming covers whatever comes
/// back.
#[verifier::external_body]
pub(crate) fn struct_layout(s: &dwat::Struct, d: &dwat::dwarf::OwnedDwarf) -> (r: Option<Vec<u8>>)
    requires
        from_dwarf(*s, *d),
        dwarf_tame(*d),
    ensures
        r matches Some(v) ==> dwat_layout_of(*s, *d) == Some(v@),
        r is None ==> dwat_layout_of(*s, *d) is None,
{
    Some(s.to_string_verbose(d, 1).ok()?.into_bytes())
}

/// `e` carries the name, size and layout the image gives for its name.
pub open spec fn decoded_entry(data: Seq<u8>, e: StructType) -> bool {
    &&& dwarf_struct_names(data).contains(e.name@)
    &&& dwarf_struct_size(data, e.name@) == Some(e.size)
    &&& dwarf_struct_layout(data, e.name@) == Some(e.layout@)
}

/// Some element of `v` is named `n`.
pub open spec fn has_entry_named(v: Seq<StructType>, n: Seq<u8>) -> bool {
    exists|j: int| 0 <= j < v.len() && v[j].name@ == n
}

/// One of the first `hi` decoded pairs is named `n`.
pub open spec fn entries_has_name(es: Seq<(Vec<u8>, dwat::Struct)>, n: Seq<u8>, hi: int) -> bool {
    exists|i: int| 0 <= i < hi && es[i].0@ == n
}

/// `e` takes its name from one of the first `hi` decoded pairs.
pub open spec fn named_from(entries: Seq<(Vec<u8>, dwat::Struct)>, e: StructType, hi: int) -> bool {
    exists|i: int| 0 <= i < hi && (#[trigger] entries[i]).0@ == e.name@
}

/// Some named struct type of the image lacks a size or a layout.
pub open spec fn some_struct_undecoded(data: Seq<u8>) -> bool {
    exists|n: Seq<u8>|
        #[trigger] dwarf_struct_names(data).contains(n) && (dwarf_struct_size(data, n) is None
            || dwarf_struct_layout(data, n) is None)
}

/// Collect every named struct type whose size and layout the metadata gives,
/// as plain values: exactly those, each with the image's values for its name,
/// under pairwise distinct names. The flag reports whether any struct type
/// had to be skipped for lacking a size or layout, so the caller can record
/// a diagnostic.
#[verifier::rlimit(50)]
pub fn collect_struct_types(d: &dwat::dwarf::OwnedDwarf) -> (r: Option<(Vec<StructType>, bool)>)
    requires
        dwarf_tame(*d),
    ensures
        r is Some <==> structs_decodable(dwarf_data(*d)),
        r matches Some(p) ==> {
            &&& distinct_names(p.0@)
            &&& forall|j: int|
                0 <= j < p.0@.len() ==> decoded_entry(dwarf_data(*d), #[trigger] p.0@[j])
            &&& forall|n: Seq<u8>|
                #[trigger] dwarf_struct_names(dwarf_data(*d)).contains(n) && dwarf_struct_size(
                    dwarf_data(*d),
                    n,
                ) is Some && dwarf_struct_layout(dwarf_data(*d), n) is Some ==> has_entry_named(
                    p.0@,
                    n,
                )
            &&& p.1 == some_struct_undecoded(dwarf_data(*d))
        },
{
    let ghost data = dwarf_data(*d);
    let entries = match struct_entries(d) {
        Some(e) => e,
        None => {
            return None;
        },
    };
    let n = entries.len();
    let mut out: Vec<StructType> = Vec::new();
    let mut dropped: bool = false;
    let mut i: usize = 0;
    while i < n
        invariant
            dwarf_tame(*d),
            data == dwarf_data(*d),
            n == entries@.len(),
            i <= n,
            forall|a: int, b: int|
                0 <= a < b < entries@.len() ==> (#[trigger] entries@[a]).0@ != (
                #[trigger] entries@[b]).0@,
            forall|i0: int|
                0 <= i0 < entries@.len() ==> dwarf_struct_names(data).contains(
                    (#[trigger] entries@[i0]).0@,
                ),
            forall|i0: int|
                0 <= i0 < entries@.len() ==> dwat_size_of((#[trigger] entries@[i0]).1, *d)
                    == dwarf_struct_size(data, entries@[i0].0@) && dwat_layout_of(
                    entries@[i0].1,
                    *d,
                ) == dwarf_struct_layout(data, entries@[i0].0@),
            forall|i0: int|
                0 <= i0 < entries@.len() ==> from_dwarf((#[trigger] entries@[i0]).1, *d),
            distinct_names(out@),
            forall|j: int| 0 <= j < out@.len() ==> named_from(entries@, #[trigger] out@[j], i as int),
            forall|j: int| 0 <= j < out@.len() ==> decoded_entry(data, #[trigger] out@[j]),
            forall|n0: Seq<u8>|
                #[trigger] entries_has_name(entries@, n0, i as int) && dwarf_struct_size(
                    data,
                    n0,
                ) is Some && dwarf_struct_layout(data, n0) is Some ==> has_entry_named(out@, n0),
            dropped ==> some_struct_undecoded(data),
            !dropped ==> forall|i0: int|
                0 <= i0 < i ==> dwarf_struct_size(data, (#[trigger] entries@[i0]).0@) is Some
                    && dwarf_struct_layout(data, entries@[i0].0@) is Some,
        decreases n - i,
    {
        let ghost old_out = out@;
        let name = crate::bytes::clone_bytes(&entries[i].0);
        let size_opt = struct_byte_size(&entries[i].1, d);
        let layout_opt = struct_layout(&entries[i].1, d);
        match (size_opt, layout_opt) {
            (Some(size), Some(layout)) => {
                assert forall|j: int| 0 <= j < out@.len() implies out@[j].name@
                    != entries@[i as int].0@ by {
                    let k = choose|k: int|
                        0 <= k < i && (#[trigger] entries@[k]).0@ == out@[j].name@;
                    assert(entries@[k].0@ != entries@[i as int].0@);
                }
                out.push(StructType { name, size, layout });
                assert(decoded_entry(data, out@[out@.len() - 1]));
            },
            _ => {
                dropped = true;
                assert(some_struct_undecoded(data)) by {
                    assert(dwarf_struct_names(data).contains(entries@[i as int].0@));
                }
            },
        }
        assert forall|n0: Seq<u8>|
            #[trigger] entries_has_name(entries@, n0, i + 1) && dwarf_struct_size(
                data,
                n0,
            ) is Some && dwarf_struct_layout(data, n0) is Some implies has_entry_named(
            out@,
            n0,
        ) by {
            let i0 = choose|i0: int| 0 <= i0 < i + 1 && entries@[i0].0@ == n0;
            if i0 < i {
                assert(entries_has_name(entries@, n0, i as int));
                let j = choose|j: int| 0 <= j < old_out.len() && old_out[j].name@ == n0;
                assert(0 <= j < out@.len() && out@[j].name@ == n0);
            } else {
                assert(0 <= out@.len() - 1 < out@.len() && out@[out@.len() - 1].name@ == n0);
            }
        }
        i += 1;
    }
    proof {
        if !dropped {
            assert forall|n0: Seq<u8>|
                !(#[trigger] dwarf_struct_names(data).contains(n0) && (dwarf_struct_size(
                    data,
                    n0,
                ) is None || dwarf_struct_layout(data, n0) is None)) by {
                if dwarf_struct_names(data).contains(n0) {
                    let i0 = choose|i0: int| 0 <= i0 < entries@.len() && (#[trigger] entries@[i0]).0@
                        == n0;
                    assert(dwarf_struct_size(data, entries@[i0].0@) is Some
                        && dwarf_struct_layout(data, entries@[i0].0@) is Some);
                }
            }
        }
        assert forall|n0: Seq<u8>|
            #[trigger] dwarf_struct_names(data).contains(n0) && dwarf_struct_size(
                data,
                n0,
            ) is Some && dwarf_struct_layout(data, n0) is Some implies has_entry_named(
            out@,
            n0,
        ) by {
            let i0 = choose|i0: int| 0 <= i0 < entries@.len() && (#[trigger] entries@[i0]).0@ == n0;
            assert(entries_has_name(entries@, n0, n as int));
        }
    }
    Some((out, dropped))
}

/// The named struct type stands in the catalog loaded with these bounds:
/// present in the image with a decodable size and layout, the size within
/// the bound (`lower` exclusive, `upper` inclusive).
pub open spec fn spec_catalog_has(data: Seq<u8>, lower: int, upper: int, n: Seq<u8>) -> bool {
    &&& dwarf_struct_names(data).contains(n)
    &&& dwarf_struct_layout(data, n) is Some
    &&& match dwarf_struct_size(data, n) {
        Option::Some(sz) => size_in_bounds(sz as int, lower, upper),
        Option::None => false,
    }
}

/// Load the catalog from a decoded binary image: collect the struct types
/// and keep exactly those whose size satisfies the bound (`lower` exclusive,
/// `upper` inclusive). `None` exactly when the image's struct types cannot
/// be enumerated; the flag reports whether any struct type was skipped for
/// lacking a size or layout, so the caller can record a diagnostic. The
/// handle comes from `load_dwarf`, and the image is assumed tame (see
/// `dwarf_tame`): that assumption cannot be tested at run time.
pub fn load_catalog(d: &dwat::dwarf::OwnedDwarf, lower: usize, upper: usize) -> (r: Option<
    (TypeCatalog, bool),
>)
    requires
        dwarf_tame(*d),
    ensures
        r is Some <==> structs_decodable(dwarf_data(*d)),
        r matches Some(p) ==> {
            &&& p.0.wf()
            &&& forall|n: Seq<u8>|
                #[trigger] p.0.contains_name(n) <==> spec_catalog_has(
                    dwarf_data(*d),
                    lower as int,
                    upper as int,
                    n,
                )
            &&& forall|j: int|
                0 <= j < p.0.entries@.len() ==> decoded_entry(
                    dwarf_data(*d),
                    #[trigger] p.0.entries@[j],
                ) && size_in_bounds(p.0.entries@[j].size as int, lower as int, upper as int)
            &&& p.1 == some_struct_undecoded(dwarf_data(*d))
        },
{
    let ghost data = dwarf_data(*d);
    let (raw, dropped) = match collect_struct_types(d) {
        Some(p) => p,
        None => {
            return None;
        },
    };
    let c = build_catalog(&raw, lower, upper);
    proof {
        assert forall|n: Seq<u8>| #[trigger]
            c.contains_name(n) <==> spec_catalog_has(data, lower as int, upper as int, n) by {
            lemma_catalog_membership(c, raw@, lower as int, upper as int, n);
            if c.contains_name(n) {
                let i = choose|i: int|
                    0 <= i < raw@.len() && raw@[i].name@ == n && size_in_bounds(
                        raw@[i].size as int,
                        lower as int,
                        upper as int,
                    );
                assert(decoded_entry(data, raw@[i]));
            }
            if spec_catalog_has(data, lower as int, upper as int, n) {
                assert(has_entry_named(raw@, n));
                let j = choose|j: int| 0 <= j < raw@.len() && raw@[j].name@ == n;
                assert(decoded_entry(data, raw@[j]));
                assert(0 <= j < raw@.len() && raw@[j].name@ == n && size_in_bounds(
                    raw@[j].size as int,
                    lower as int,
                    upper as int,
                ));
            }
        }
        assert forall|j: int| 0 <= j < c.entries@.len() implies decoded_entry(
            data,
            #[trigger] c.entries@[j],
        ) && size_in_bounds(c.entries@[j].size as int, lower as int, upper as int) by {
            let i = choose|i: int|
                0 <= i < raw@.len() && crate::catalog::entry_models(c.entries@[j], raw@[i])
                    && size_in_bounds(raw@[i].size as int, lower as int, upper as int);
            assert(decoded_entry(data, raw@[i]));
        }
    }
    Some((c, dropped))
}

} // verus!
