//! The candidate prefilter: a file is worth parsing only when every required
//! identifier occurs literally in its text. Necessary, not sufficient: the
//! structural matcher decides finally.

use vstd::prelude::*;

use crate::bytes::{contains_subslice, is_substring};

verus! {

/// Every required identifier occurs as a literal substring of `content`.
pub open spec fn all_idents_present(content: Seq<u8>, ids: Seq<Vec<u8>>) -> bool {
    forall|i: int| 0 <= i < ids.len() ==> is_substring(content, (#[trigger] ids[i])@)
}

/// Whether the file text can possibly match: every required identifier is
/// present literally.
pub fn might_match(content: &Vec<u8>, idents: &Vec<Vec<u8>>) -> (r: bool)
    ensures
        r == all_idents_present(content@, idents@),
{
    let n = idents.len();
    let mut i: usize = 0;
    while i < n
        invariant
            n == idents@.len(),
            i <= n,
            forall|j: int| 0 <= j < i ==> is_substring(content@, (#[trigger] idents@[j])@),
        decreases n - i,
    {
        if !contains_subslice(content, &idents[i]) {
            return false;
        }
        i += 1;
    }
    true
}

} // verus!
