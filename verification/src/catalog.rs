//! The struct-type catalog: named struct types decoded from a binary's debug
//! metadata, retained only when their byte size satisfies the configured
//! bound.
//!
//! Bound convention: the lower bound is exclusive and the upper bound is
//! inclusive, `lower < size <= upper`.

use vstd::prelude::*;

use crate::bytes::{bytes_eq, clone_bytes};

verus! {

/// One struct type decoded from debug metadata: its name, its compiled byte
/// size, and its verbose multi-line layout description.
pub struct StructType {
    pub name: Vec<u8>,
    pub size: usize,
    pub layout: Vec<u8>,
}

/// The configured size bound: exclusive lower bound, inclusive upper bound.
pub open spec fn size_in_bounds(size: int, lower: int, upper: int) -> bool {
    lower < size && size <= upper
}

/// `e` carries the same name, size and layout as `r`.
pub open spec fn entry_models(e: StructType, r: StructType) -> bool {
    e.name@ == r.name@ && e.size == r.size && e.layout@ == r.layout@
}

/// No two entries of `s` share a name.
pub open spec fn distinct_names(s: Seq<StructType>) -> bool {
    forall|i: int, j: int| 0 <= i < j < s.len() ==> s[i].name@ != s[j].name@
}

/// First index of an entry named `name` in `entries`, from position `i` on.
pub open spec fn spec_lookup_idx(entries: Seq<StructType>, name: Seq<u8>, i: int) -> Option<int>
    decreases entries.len() - i,
{
    if i < 0 || i >= entries.len() {
        Option::None
    } else if entries[i].name@ == name {
        Option::Some(i)
    } else {
        spec_lookup_idx(entries, name, i + 1)
    }
}

/// The catalog: a read-only collection of struct types, each satisfying the
/// size bound it was built with, with no duplicate names.
pub struct TypeCatalog {
    pub entries: Vec<StructType>,
}

impl TypeCatalog {
    /// Well-formedness: no two entries share a name.
    pub open spec fn wf(self) -> bool {
        distinct_names(self.entries@)
    }

    /// A struct type of this name stands in the catalog.
    pub open spec fn contains_name(self, name: Seq<u8>) -> bool {
        exists|i: int| 0 <= i < self.entries@.len() && self.entries@[i].name@ == name
    }

    /// Number of entries.
    pub fn len(&self) -> (r: usize)
        ensures
            r == self.entries@.len(),
    {
        self.entries.len()
    }

    /// Find the catalog entry of the given name, if any.
    pub fn lookup<'a>(&'a self, name: &Vec<u8>) -> (r: Option<&'a StructType>)
        ensures
            match r {
                Some(e) => {
                    &&& spec_lookup_idx(self.entries@, name@, 0) matches Some(j) && *e
                        == self.entries@[j]
                    &&& e.name@ == name@
                },
                None => {
                    &&& spec_lookup_idx(self.entries@, name@, 0) is None
                    &&& !self.contains_name(name@)
                },
            },
    {
        let n = self.entries.len();
        let mut i: usize = 0;
        while i < n
            invariant
                n == self.entries@.len(),
                i <= n,
                forall|j: int| 0 <= j < i ==> self.entries@[j].name@ != name@,
                spec_lookup_idx(self.entries@, name@, 0) == spec_lookup_idx(
                    self.entries@,
                    name@,
                    i as int,
                ),
            decreases n - i,
        {
            if bytes_eq(&self.entries[i].name, name) {
                return Some(&self.entries[i]);
            }
            i += 1;
        }
        None
    }
}


/// Some entry of `s` carries the same name, size and layout as `r`.
pub open spec fn seq_has_model_of(s: Seq<StructType>, r: StructType) -> bool {
    exists|j: int| 0 <= j < s.len() && entry_models(s[j], r)
}

/// `e` models some entry of `raw` whose size satisfies the bound.
pub open spec fn entry_from(raw: Seq<StructType>, e: StructType, lower: int, upper: int) -> bool {
    exists|i: int|
        0 <= i < raw.len() && entry_models(e, raw[i]) && size_in_bounds(
            raw[i].size as int,
            lower,
            upper,
        )
}

/// Copy one catalog entry.
fn clone_entry(e: &StructType) -> (r: StructType)
    ensures
        entry_models(r, *e),
{
    StructType { name: clone_bytes(&e.name), size: e.size, layout: clone_bytes(&e.layout) }
}

/// Build the catalog from the decoded struct types, keeping exactly those
/// whose byte size satisfies the bound (`lower` exclusive, `upper` inclusive).
///
/// Every input entry whose size satisfies the bound is modelled by some
/// catalog entry, and every catalog entry models some input entry whose size
/// satisfies the bound.
#[verifier::rlimit(50)]
pub fn build_catalog(raw: &Vec<StructType>, lower: usize, upper: usize) -> (c: TypeCatalog)
    requires
        distinct_names(raw@),
    ensures
        c.wf(),
        forall|i: int|
            0 <= i < raw@.len() && size_in_bounds(raw@[i].size as int, lower as int, upper as int)
                ==> seq_has_model_of(c.entries@, #[trigger] raw@[i]),
        forall|j: int|
            0 <= j < c.entries@.len() ==> entry_from(
                raw@,
                #[trigger] c.entries@[j],
                lower as int,
                upper as int,
            ),
{
    let n = raw.len();
    let mut entries: Vec<StructType> = Vec::new();
    let mut i: usize = 0;
    while i < n
        invariant
            n == raw@.len(),
            i <= n,
            distinct_names(raw@),
            distinct_names(entries@),
            forall|j: int|
                0 <= j < entries@.len() ==> entry_from(
                    raw@.subrange(0, i as int),
                    #[trigger] entries@[j],
                    lower as int,
                    upper as int,
                ),
            forall|i0: int|
                0 <= i0 < i && size_in_bounds(raw@[i0].size as int, lower as int, upper as int)
                    ==> seq_has_model_of(entries@, #[trigger] raw@[i0]),
        decreases n - i,
    {
        let ghost old_entries = entries@;
        let ghost prefix = raw@.subrange(0, i as int);
        let ghost prefix1 = raw@.subrange(0, i + 1);
        proof {
            assert(prefix1[i as int] == raw@[i as int]);
            assert(forall|m: int| 0 <= m < i ==> prefix1[m] == #[trigger] prefix[m]);
        }
        let e = &raw[i];
        if lower < e.size && e.size <= upper {
            assert forall|j: int| 0 <= j < entries@.len() implies entries@[j].name@
                != raw@[i as int].name@ by {
                let i0 = choose|i0: int|
                    0 <= i0 < prefix.len() && entry_models(entries@[j], prefix[i0])
                        && size_in_bounds(prefix[i0].size as int, lower as int, upper as int);
                assert(prefix[i0] == raw@[i0]);
                assert(raw@[i0].name@ != raw@[i as int].name@);
            }
            let kept = clone_entry(e);
            entries.push(kept);
            assert(entry_models(entries@[entries@.len() - 1], raw@[i as int]));
        }
        assert forall|j: int| 0 <= j < entries@.len() implies entry_from(
            prefix1,
            #[trigger] entries@[j],
            lower as int,
            upper as int,
        ) by {
            if j < old_entries.len() {
                assert(entries@[j] == old_entries[j]);
                let i0 = choose|i0: int|
                    0 <= i0 < prefix.len() && entry_models(old_entries[j], prefix[i0])
                        && size_in_bounds(prefix[i0].size as int, lower as int, upper as int);
                assert(0 <= i0 < prefix1.len() && entry_models(entries@[j], prefix1[i0])
                    && size_in_bounds(prefix1[i0].size as int, lower as int, upper as int));
            } else {
                assert(0 <= i < prefix1.len() && entry_models(entries@[j], prefix1[i as int])
                    && size_in_bounds(prefix1[i as int].size as int, lower as int, upper as int));
            }
        }
        assert forall|i0: int|
            0 <= i0 < i + 1 && size_in_bounds(
                raw@[i0].size as int,
                lower as int,
                upper as int,
            ) implies seq_has_model_of(entries@, #[trigger] raw@[i0]) by {
            if i0 == i {
                assert(0 <= entries@.len() - 1 < entries@.len() && entry_models(
                    entries@[entries@.len() - 1],
                    raw@[i0],
                ));
            } else {
                let j = choose|j: int| 0 <= j < old_entries.len() && entry_models(
                    old_entries[j],
                    raw@[i0],
                );
                assert(entries@[j] == old_entries[j]);
                assert(0 <= j < entries@.len() && entry_models(entries@[j], raw@[i0]));
            }
        }
        i += 1;
    }
    proof {
        assert(raw@.subrange(0, n as int) =~= raw@);
    }
    TypeCatalog { entries }
}

/// A struct name stands in the catalog built from `raw` iff `raw` holds an
/// entry of that name whose byte size satisfies the bound (`lower` exclusive,
/// `upper` inclusive).
pub proof fn lemma_catalog_membership(
    c: TypeCatalog,
    raw: Seq<StructType>,
    lower: int,
    upper: int,
    name: Seq<u8>,
)
    requires
        forall|i: int|
            0 <= i < raw.len() && size_in_bounds(raw[i].size as int, lower, upper)
                ==> seq_has_model_of(c.entries@, #[trigger] raw[i]),
        forall|j: int|
            0 <= j < c.entries@.len() ==> entry_from(raw, #[trigger] c.entries@[j], lower, upper),
    ensures
        c.contains_name(name) <==> exists|i: int|
            0 <= i < raw.len() && raw[i].name@ == name && size_in_bounds(
                raw[i].size as int,
                lower,
                upper,
            ),
{
    if c.contains_name(name) {
        let j = choose|j: int| 0 <= j < c.entries@.len() && c.entries@[j].name@ == name;
        let i = choose|i: int|
            0 <= i < raw.len() && entry_models(c.entries@[j], raw[i]) && size_in_bounds(
                raw[i].size as int,
                lower,
                upper,
            );
        assert(0 <= i < raw.len() && raw[i].name@ == name && size_in_bounds(
            raw[i].size as int,
            lower,
            upper,
        ));
    }
    if exists|i: int|
        0 <= i < raw.len() && raw[i].name@ == name && size_in_bounds(
            raw[i].size as int,
            lower,
            upper,
        ) {
        let i = choose|i: int|
            0 <= i < raw.len() && raw[i].name@ == name && size_in_bounds(
                raw[i].size as int,
                lower,
                upper,
            );
        assert(seq_has_model_of(c.entries@, raw[i]));
        let j = choose|j: int| 0 <= j < c.entries@.len() && entry_models(c.entries@[j], raw[i]);
        assert(0 <= j < c.entries@.len() && c.entries@[j].name@ == name);
    }
}

} // verus!
