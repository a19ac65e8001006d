//! Corpus path selection: which files under the scan root are candidates.
//!
//! A path is kept when it carries a C source extension (`.c` or `.h`), no
//! component of it is hidden (starts with `.`), and it matches none of the
//! configured exclude globs. Paths are handled as `/`-separated byte strings
//! relative to the scan root; glob evaluation is the `globset` crate's,
//! reached through trusted wrappers.

use vstd::prelude::*;

use crate::bytes::clone_bytes;

verus! {

/// The `globset` matcher type, opaque to the verifier.
#[verifier::external_type_specification]
#[verifier::external_body]
pub struct ExGlobSet(globset::GlobSet);

/// The pattern a one-pattern `globset::GlobSet` was compiled from.
pub uninterp spec fn glob_pattern(m: globset::GlobSet) -> Seq<u8>;

/// Whether `globset` accepts `pattern`: UTF-8, valid glob syntax, and within
/// the compiled size limit `GlobSetBuilder::build` enforces.
pub uninterp spec fn glob_valid(pattern: Seq<u8>) -> bool;

/// Whether the glob `pattern` matches `path`, by `globset`'s semantics.
pub uninterp spec fn glob_matches(pattern: Seq<u8>, path: Seq<u8>) -> bool;

/// Relies on globset::Glob::new and GlobSetBuilder::build: together they
/// accept exactly the valid patterns (parse and compile both return errors,
/// never panic), and the returned one-pattern set evaluates the pattern it
/// was compiled from.
#[verifier::external_body]
pub(crate) fn compile_glob(pattern: &Vec<u8>) -> (r: Option<globset::GlobSet>)
    ensures
        r is Some <==> glob_valid(pattern@),
        r matches Some(m) ==> glob_pattern(m) == pattern@,
{
    let s = core::str::from_utf8(pattern).ok()?;
    let g = globset::Glob::new(s).ok()?;
    let mut builder = globset::GlobSetBuilder::new();
    builder.add(g);
    builder.build().ok()
}

/// Relies on globset::GlobSet::is_match: whether the compiled pattern
/// matches the path.
#[verifier::external_body]
pub(crate) fn glob_is_match(m: &globset::GlobSet, path: &Vec<u8>) -> (r: bool)
    ensures
        r == glob_matches(glob_pattern(*m), path@),
{
    m.is_match(String::from_utf8_lossy(path).as_ref())
}

/// The patterns of a list of compiled matchers.
pub open spec fn glob_patterns(ms: Seq<globset::GlobSet>) -> Seq<Seq<u8>> {
    ms.map_values(|m: globset::GlobSet| glob_pattern(m))
}

/// Some pattern of `pats` matches `path`.
pub open spec fn some_glob_matches(pats: Seq<Seq<u8>>, path: Seq<u8>) -> bool {
    exists|g: int| 0 <= g < pats.len() && glob_matches(pats[g], path)
}

/// The path ends in `.c` or `.h`.
pub open spec fn source_extension(p: Seq<u8>) -> bool {
    p.len() >= 2 && p[p.len() - 2] == 46 && (p[p.len() - 1] == 99 || p[p.len() - 1] == 104)
}

/// Position `k` starts a `/`-separated component and holds a `.`.
pub open spec fn hidden_start_at(p: Seq<u8>, k: int) -> bool {
    0 <= k < p.len() && (k == 0 || p[k - 1] == 47) && p[k] == 46
}

/// Some `/`-separated component of the path starts with `.`.
pub open spec fn has_hidden_component(p: Seq<u8>) -> bool {
    exists|k: int| hidden_start_at(p, k)
}

/// A candidate path: source extension, nothing hidden, no exclude glob match.
pub open spec fn spec_keep_path(p: Seq<u8>, pats: Seq<Seq<u8>>) -> bool {
    source_extension(p) && !has_hidden_component(p) && !some_glob_matches(pats, p)
}

/// `s` holds a path with exactly the bytes of `p`.
pub open spec fn seq_contains_bytes(s: Seq<Vec<u8>>, p: Seq<u8>) -> bool {
    exists|j: int| 0 <= j < s.len() && s[j]@ == p
}

/// Compile every exclude pattern; `None` exactly when some pattern is
/// rejected.
pub fn compile_excludes(patterns: &Vec<Vec<u8>>) -> (r: Option<Vec<globset::GlobSet>>)
    ensures
        r is Some <==> (forall|g: int| 0 <= g < patterns@.len() ==> glob_valid(
            #[trigger] patterns@[g]@,
        )),
        r matches Some(ms) ==> {
            &&& ms@.len() == patterns@.len()
            &&& forall|g: int|
                0 <= g < ms@.len() ==> glob_pattern(#[trigger] ms@[g]) == patterns@[g]@
        },
{
    let n = patterns.len();
    let mut ms: Vec<globset::GlobSet> = Vec::new();
    let mut i: usize = 0;
    while i < n
        invariant
            n == patterns@.len(),
            i <= n,
            ms@.len() == i,
            forall|g: int| 0 <= g < i ==> glob_valid(#[trigger] patterns@[g]@),
            forall|g: int| 0 <= g < i ==> glob_pattern(#[trigger] ms@[g]) == patterns@[g]@,
        decreases n - i,
    {
        match compile_glob(&patterns[i]) {
            Some(m) => {
                ms.push(m);
            },
            None => {
                return None;
            },
        }
        i += 1;
    }
    Some(ms)
}

/// Whether the path ends in `.c` or `.h`.
pub fn has_source_extension(p: &Vec<u8>) -> (r: bool)
    ensures
        r == source_extension(p@),
{
    let n = p.len();
    if n < 2 {
        return false;
    }
    p[n - 2] == 46 && (p[n - 1] == 99 || p[n - 1] == 104)
}

/// Whether some `/`-separated component of the path starts with `.`.
pub fn is_hidden_path(p: &Vec<u8>) -> (r: bool)
    ensures
        r == has_hidden_component(p@),
{
    let n = p.len();
    let mut k: usize = 0;
    while k < n
        invariant
            n == p@.len(),
            k <= n,
            forall|j: int| 0 <= j < k ==> !hidden_start_at(p@, j),
        decreases n - k,
    {
        if (k == 0 || p[k - 1] == 47) && p[k] == 46 {
            assert(hidden_start_at(p@, k as int));
            return true;
        }
        assert(!hidden_start_at(p@, k as int));
        k += 1;
    }
    false
}

/// Whether any of the compiled exclude globs matches the path.
pub fn any_glob_matches(ms: &Vec<globset::GlobSet>, path: &Vec<u8>) -> (r: bool)
    ensures
        r == some_glob_matches(glob_patterns(ms@), path@),
{
    let n = ms.len();
    let mut g: usize = 0;
    while g < n
        invariant
            n == ms@.len(),
            g <= n,
            forall|j: int| 0 <= j < g ==> !glob_matches(glob_patterns(ms@)[j], path@),
        decreases n - g,
    {
        if glob_is_match(&ms[g], path) {
            assert(glob_patterns(ms@)[g as int] == glob_pattern(ms@[g as int]));
            return true;
        }
        assert(glob_patterns(ms@)[g as int] == glob_pattern(ms@[g as int]));
        g += 1;
    }
    false
}

/// Select the candidate paths: those with a source extension, no hidden
/// component, and no exclude-glob match. Every selected path satisfies the
/// rule and is one of the offered paths, and every offered path satisfying
/// the rule is selected; so when no offered path qualifies, nothing is
/// selected.
pub fn select_paths(paths: &Vec<Vec<u8>>, excludes: &Vec<globset::GlobSet>) -> (r: Vec<
    Vec<u8>,
>)
    ensures
        forall|j: int|
            0 <= j < r@.len() ==> spec_keep_path(#[trigger] r@[j]@, glob_patterns(excludes@)),
        forall|j: int| 0 <= j < r@.len() ==> seq_contains_bytes(paths@, (#[trigger] r@[j])@),
        forall|i: int|
            0 <= i < paths@.len() && spec_keep_path(#[trigger] paths@[i]@, glob_patterns(excludes@))
                ==> seq_contains_bytes(r@, paths@[i]@),
{
    let n = paths.len();
    let mut r: Vec<Vec<u8>> = Vec::new();
    let mut i: usize = 0;
    while i < n
        invariant
            n == paths@.len(),
            i <= n,
            forall|j: int|
                0 <= j < r@.len() ==> spec_keep_path(#[trigger] r@[j]@, glob_patterns(excludes@)),
            forall|j: int| 0 <= j < r@.len() ==> seq_contains_bytes(paths@, (#[trigger] r@[j])@),
            forall|i0: int|
                0 <= i0 < i && spec_keep_path(
                    #[trigger] paths@[i0]@,
                    glob_patterns(excludes@),
                ) ==> seq_contains_bytes(r@, paths@[i0]@),
        decreases n - i,
    {
        let ghost old_r = r@;
        let p = &paths[i];
        if has_source_extension(p) && !is_hidden_path(p) && !any_glob_matches(excludes, p) {
            let kept = clone_bytes(p);
            r.push(kept);
            assert(r@[r@.len() - 1]@ == paths@[i as int]@);
            assert(seq_contains_bytes(paths@, r@[r@.len() - 1]@));
        }
        assert forall|i0: int|
            0 <= i0 < i + 1 && spec_keep_path(
                #[trigger] paths@[i0]@,
                glob_patterns(excludes@),
            ) implies seq_contains_bytes(r@, paths@[i0]@) by {
            if i0 == i {
                assert(0 <= r@.len() - 1 < r@.len() && r@[r@.len() - 1]@ == paths@[i0]@);
            } else {
                let j = choose|j: int| 0 <= j < old_r.len() && old_r[j]@ == paths@[i0]@;
                assert(r@[j]@ == paths@[i0]@);
            }
        }
        i += 1;
    }
    r
}

/// A path matching any configured exclude glob is never among the selected
/// candidates, whatever else holds of it.
pub proof fn lemma_excluded_never_selected(selected: Seq<Vec<u8>>, pats: Seq<Seq<u8>>, p: Seq<u8>)
    requires
        forall|j: int| 0 <= j < selected.len() ==> spec_keep_path(#[trigger] selected[j]@, pats),
        some_glob_matches(pats, p),
    ensures
        !seq_contains_bytes(selected, p),
{
    if seq_contains_bytes(selected, p) {
        let j = choose|j: int| 0 <= j < selected.len() && selected[j]@ == p;
        assert(spec_keep_path(selected[j]@, pats));
        assert(!some_glob_matches(pats, selected[j]@));
    }
}

} // verus!
