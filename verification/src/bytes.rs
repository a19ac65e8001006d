//! Byte-sequence helpers: equality and substring search over `Vec<u8>`.

use vstd::prelude::*;

verus! {

/// `needle` occurs as a contiguous run of `hay` starting at index `k`.
pub open spec fn is_subrange_at(hay: Seq<u8>, needle: Seq<u8>, k: int) -> bool {
    0 <= k && k + needle.len() <= hay.len() && hay.subrange(k, k + needle.len()) == needle
}

/// `needle` occurs somewhere in `hay` as a contiguous run.
pub open spec fn is_substring(hay: Seq<u8>, needle: Seq<u8>) -> bool {
    exists|k: int| is_subrange_at(hay, needle, k)
}

/// Whether two byte vectors hold the same bytes.
pub fn bytes_eq(a: &Vec<u8>, b: &Vec<u8>) -> (r: bool)
    ensures
        r == (a@ == b@),
{
    let n = a.len();
    if n != b.len() {
        return false;
    }
    let mut i: usize = 0;
    while i < n
        invariant
            n == a@.len(),
            a@.len() == b@.len(),
            i <= n,
            forall|j: int| 0 <= j < i ==> a@[j] == b@[j],
        decreases n - i,
    {
        if a[i] != b[i] {
            return false;
        }
        i += 1;
    }
    assert(a@ =~= b@);
    true
}

/// Whether `needle` occurs in `hay` starting exactly at index `k`.
fn matches_at(hay: &Vec<u8>, needle: &Vec<u8>, k: usize) -> (r: bool)
    requires
        k + needle@.len() <= hay@.len(),
    ensures
        r == is_subrange_at(hay@, needle@, k as int),
{
    let n = needle.len();
    let hn = hay.len();
    let mut i: usize = 0;
    while i < n
        invariant
            n == needle@.len(),
            hn == hay@.len(),
            k + n <= hay@.len(),
            i <= n,
            forall|j: int| 0 <= j < i ==> hay@[k + j] == needle@[j],
        decreases n - i,
    {
        if hay[k + i] != needle[i] {
            assert(!is_subrange_at(hay@, needle@, k as int)) by {
                if hay@.subrange(k as int, k + needle@.len()) == needle@ {
                    assert(hay@.subrange(k as int, k + needle@.len())[i as int] == hay@[k + i]);
                }
            }
            return false;
        }
        i += 1;
    }
    assert(hay@.subrange(k as int, k + needle@.len()) =~= needle@);
    true
}

/// Whether `needle` occurs anywhere in `hay`.
pub fn contains_subslice(hay: &Vec<u8>, needle: &Vec<u8>) -> (r: bool)
    ensures
        r == is_substring(hay@, needle@),
{
    if needle.len() > hay.len() {
        assert(forall|k: int| !is_subrange_at(hay@, needle@, k));
        return false;
    }
    if needle.len() == 0 {
        assert(is_subrange_at(hay@, needle@, 0)) by {
            assert(hay@.subrange(0, 0) =~= needle@);
        }
        return true;
    }
    let bound: usize = hay.len() - needle.len();
    let hn = hay.len();
    let mut k: usize = 0;
    while k <= bound
        invariant
            1 <= needle@.len() <= hay@.len(),
            hn == hay@.len(),
            bound == hay@.len() - needle@.len(),
            k <= bound + 1,
            forall|j: int| 0 <= j < k ==> !is_subrange_at(hay@, needle@, j),
        decreases bound + 1 - k,
    {
        if matches_at(hay, needle, k) {
            return true;
        }
        k += 1;
    }
    assert(forall|j: int| is_subrange_at(hay@, needle@, j) ==> 0 <= j <= bound);
    false
}

/// Copy a byte vector.
pub fn clone_bytes(v: &Vec<u8>) -> (r: Vec<u8>)
    ensures
        r@ == v@,
{
    let n = v.len();
    let mut r: Vec<u8> = Vec::new();
    let mut i: usize = 0;
    while i < n
        invariant
            n == v@.len(),
            i <= n,
            r@ == v@.subrange(0, i as int),
        decreases n - i,
    {
        r.push(v[i]);
        assert(r@ =~= v@.subrange(0, i + 1));
        i += 1;
    }
    assert(r@ =~= v@);
    r
}


/// Append all bytes of `s`.
pub fn append_bytes(out: &mut Vec<u8>, s: &Vec<u8>)
    ensures
        final(out)@ == old(out)@ + s@,
{
    let ghost orig = out@;
    let n = s.len();
    let mut i: usize = 0;
    while i < n
        invariant
            n == s@.len(),
            i <= n,
            out@ == orig + s@.subrange(0, i as int),
        decreases n - i,
    {
        out.push(s[i]);
        assert(out@ =~= orig + s@.subrange(0, i + 1));
        i += 1;
    }
    assert(out@ =~= orig + s@);
}

/// The bytes `[start, end)` of `t` as a fresh vector.
pub fn copy_range(t: &Vec<u8>, start: usize, end: usize) -> (r: Vec<u8>)
    requires
        start <= end <= t@.len(),
    ensures
        r@ == t@.subrange(start as int, end as int),
{
    let mut r: Vec<u8> = Vec::new();
    let mut k: usize = start;
    while k < end
        invariant
            start <= k <= end <= t@.len(),
            r@ == t@.subrange(start as int, k as int),
        decreases end - k,
    {
        r.push(t[k]);
        assert(r@ =~= t@.subrange(start as int, k + 1));
        k += 1;
    }
    r
}


/// The result of lossy UTF-8 decoding: each maximal invalid sequence of
/// `bytes` replaced by the replacement character, valid input unchanged.
pub uninterp spec fn lossy_of(bytes: Seq<u8>) -> Seq<u8>;

/// Relies on String::from_utf8_lossy: deterministic in the bytes; each
/// maximal invalid UTF-8 sequence becomes the replacement character U+FFFD,
/// and valid UTF-8 comes back unchanged.
#[verifier::external_body]
pub fn lossy_utf8(bytes: &Vec<u8>) -> (r: Vec<u8>)
    ensures
        r@ == lossy_of(bytes@),
        vstd::utf8::valid_utf8(bytes@) ==> r@ == bytes@,
{
    String::from_utf8_lossy(bytes).into_owned().into_bytes()
}

} // verus!
