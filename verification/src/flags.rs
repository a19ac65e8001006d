//! The allocation-flags filter: a user-supplied regex tested against the
//! captured flags-argument text.
//!
//! Policy for matches whose allocator-call shape carries no flags argument:
//! configurable. With `reject_missing` unset such a match passes the filter,
//! with it set the match is rejected. With no regex configured every match
//! passes.

use vstd::prelude::*;

verus! {

/// The `regex` crate's byte-oriented regex type, opaque to the verifier.
#[verifier::external_type_specification]
#[verifier::external_body]
pub struct ExRegex(regex::bytes::Regex);

/// The pattern a `regex::bytes::Regex` was compiled from.
pub uninterp spec fn regex_pattern(re: regex::bytes::Regex) -> Seq<u8>;

/// Whether the `regex` crate accepts `pattern` (UTF-8 and valid syntax).
pub uninterp spec fn regex_valid(pattern: Seq<u8>) -> bool;

/// Whether `pattern` matches somewhere in `hay`, by the `regex` crate's
/// semantics.
pub uninterp spec fn regex_found(pattern: Seq<u8>, hay: Seq<u8>) -> bool;

/// Relies on regex::bytes::Regex::new: it accepts exactly the valid
/// patterns, and the compiled value evaluates the pattern it was compiled
/// from.
#[verifier::external_body]
pub fn compile_regex(pattern: &Vec<u8>) -> (r: Option<regex::bytes::Regex>)
    ensures
        r is Some <==> regex_valid(pattern@),
        r matches Some(re) ==> regex_pattern(re) == pattern@,
{
    let s = core::str::from_utf8(pattern).ok()?;
    regex::bytes::Regex::new(s).ok()
}

/// Relies on regex::bytes::Regex::find: whether the pattern matches anywhere
/// in the haystack.
#[verifier::external_body]
pub(crate) fn regex_finds(re: &regex::bytes::Regex, hay: &Vec<u8>) -> (r: bool)
    ensures
        r == regex_found(regex_pattern(*re), hay@),
{
    re.find(hay).is_some()
}

/// Whether a match passes the flags filter: with no regex configured, always;
/// with one, the captured flags text must match it, and a match without a
/// flags argument passes or is rejected by `reject_missing`.
pub open spec fn spec_flags_accept(
    pattern: Option<Seq<u8>>,
    flags: Option<Seq<u8>>,
    reject_missing: bool,
) -> bool {
    match pattern {
        Option::None => true,
        Option::Some(p) => match flags {
            Option::Some(f) => regex_found(p, f),
            Option::None => !reject_missing,
        },
    }
}

/// Apply the flags filter to the captured flags text of one match.
pub fn flags_accept(
    re: &Option<regex::bytes::Regex>,
    flags: &Option<Vec<u8>>,
    reject_missing: bool,
) -> (r: bool)
    ensures
        r == spec_flags_accept(
            match re {
                Option::Some(x) => Option::Some(regex_pattern(*x)),
                Option::None => Option::None,
            },
            match flags {
                Option::Some(f) => Option::Some(f@),
                Option::None => Option::None,
            },
            reject_missing,
        ),
{
    match re {
        Option::None => true,
        Option::Some(x) => match flags {
            Option::Some(f) => regex_finds(x, f),
            Option::None => !reject_missing,
        },
    }
}

} // verus!
