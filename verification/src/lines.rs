//! Line structure of a byte text: 1-based line numbers for byte offsets, and
//! the decomposition of a text into newline-separated line spans.

use vstd::prelude::*;

verus! {

/// Number of newline bytes among the first `upto` bytes of `s`.
pub open spec fn newline_count(s: Seq<u8>, upto: int) -> int
    decreases upto,
{
    if upto <= 0 {
        0
    } else {
        newline_count(s, upto - 1) + if s[upto - 1] == 10 {
            1int
        } else {
            0int
        }
    }
}

/// The 1-based line number of the byte at `off`.
pub open spec fn line_number_at(s: Seq<u8>, off: int) -> int {
    1 + newline_count(s, off)
}

proof fn lemma_newline_count_bound(s: Seq<u8>, upto: int)
    ensures
        newline_count(s, upto) <= if upto <= 0 {
            0int
        } else {
            upto
        },
    decreases upto,
{
    if upto > 0 {
        lemma_newline_count_bound(s, upto - 1);
    }
}

/// The 1-based line number of byte offset `offset`, or `None` when the offset
/// lies at or past the end of the text.
pub fn byte_offset_to_line_number(content: &Vec<u8>, offset: usize) -> (r: Option<usize>)
    ensures
        match r {
            Some(l) => offset < content@.len() && l == line_number_at(content@, offset as int),
            None => offset >= content@.len(),
        },
{
    let n = content.len();
    if offset >= n {
        return None;
    }
    let mut line: usize = 1;
    let mut i: usize = 0;
    while i < offset
        invariant
            n == content@.len(),
            offset < n,
            i <= offset,
            line == line_number_at(content@, i as int),
            line <= i + 1,
        decreases offset - i,
    {
        proof {
            lemma_newline_count_bound(content@, i as int);
        }
        if content[i] == 10 {
            line += 1;
        }
        i += 1;
    }
    Some(line)
}

/// The line spans of `t` from offset `from` on: maximal newline-free runs,
/// given as `(start, end)` byte offsets with `end` exclusive. The separating
/// newline bytes belong to no span; the final span ends at the end of the
/// text.
pub open spec fn spec_lines(t: Seq<u8>, from: int) -> Seq<(usize, usize)>
    decreases t.len() - from,
{
    if from >= t.len() || from < 0 {
        seq![(from as usize, from as usize)]
    } else if t[from] == 10 {
        seq![(from as usize, from as usize)] + spec_lines(t, from + 1)
    } else {
        let rest = spec_lines(t, from + 1);
        seq![(from as usize, rest[0].1)] + rest.skip(1)
    }
}

/// `spec_lines` of a text whose tail holds no newline is one span to the end.
proof fn lemma_lines_tail(t: Seq<u8>, from: int)
    requires
        0 <= from <= t.len(),
        forall|m: int| from <= m < t.len() ==> t[m] != 10,
    ensures
        spec_lines(t, from) == seq![(from as usize, t.len() as usize)],
    decreases t.len() - from,
{
    if from >= t.len() {
    } else {
        lemma_lines_tail(t, from + 1);
        let rest = spec_lines(t, from + 1);
        assert(rest[0].1 == t.len() as usize);
        assert(seq![(from as usize, rest[0].1)] + rest.skip(1) =~= seq![
            (from as usize, t.len() as usize),
        ]);
    }
}

/// `spec_lines` with the first newline at `e`: one span up to `e`, then the
/// lines after it.
proof fn lemma_lines_first(t: Seq<u8>, from: int, e: int)
    requires
        0 <= from <= e < t.len(),
        t[e] == 10,
        forall|m: int| from <= m < e ==> t[m] != 10,
    ensures
        spec_lines(t, from) == seq![(from as usize, e as usize)] + spec_lines(t, e + 1),
    decreases e - from,
{
    if from == e {
    } else {
        lemma_lines_first(t, from + 1, e);
        let rest = spec_lines(t, from + 1);
        assert(rest[0] == (((from + 1) as usize), e as usize));
        assert(rest.skip(1) =~= spec_lines(t, e + 1));
        assert(seq![(from as usize, rest[0].1)] + rest.skip(1) =~= seq![(from as usize, e as usize)]
            + spec_lines(t, e + 1));
    }
}

/// Split `t` into its line spans.
pub fn split_lines(t: &Vec<u8>) -> (r: Vec<(usize, usize)>)
    ensures
        r@ == spec_lines(t@, 0),
{
    let n = t.len();
    let mut r: Vec<(usize, usize)> = Vec::new();
    let mut cur: usize = 0;
    let mut k: usize = 0;
    while k < n
        invariant
            n == t@.len(),
            cur <= k <= n,
            spec_lines(t@, 0) == r@ + spec_lines(t@, cur as int),
            forall|m: int| cur <= m < k ==> t@[m] != 10,
        decreases n - k,
    {
        if t[k] == 10 {
            proof {
                lemma_lines_first(t@, cur as int, k as int);
            }
            r.push((cur, k));
            assert(r@ + spec_lines(t@, k + 1) =~= (r@.drop_last() + seq![
                ((cur as usize), (k as usize)),
            ]) + spec_lines(t@, k + 1));
            cur = k + 1;
        }
        k += 1;
    }
    proof {
        lemma_lines_tail(t@, cur as int);
    }
    r.push((cur, n));
    assert(r@ =~= r@.drop_last() + seq![((cur as usize), (n as usize))]);
    assert(r@ =~= spec_lines(t@, 0));
    r
}


/// Every line span lies within `[from, t.len()]`, starts at or after `from`,
/// and is ordered; there is at least one span.
pub proof fn lemma_lines_wf(t: Seq<u8>, from: int)
    requires
        0 <= from <= t.len(),
        t.len() <= usize::MAX,
    ensures
        spec_lines(t, from).len() >= 1,
        forall|i: int|
            0 <= i < spec_lines(t, from).len() ==> from <= (#[trigger] spec_lines(t, from)[i]).0
                <= spec_lines(t, from)[i].1 <= t.len(),
    decreases t.len() - from,
{
    if from >= t.len() {
    } else if t[from] == 10 {
        lemma_lines_wf(t, from + 1);
        let rest = spec_lines(t, from + 1);
        let l = spec_lines(t, from);
        assert forall|i: int| 0 <= i < l.len() implies from <= (#[trigger] l[i]).0 <= l[i].1
            <= t.len() by {
            if i > 0 {
                assert(l[i] == rest[i - 1]);
            }
        }
    } else {
        lemma_lines_wf(t, from + 1);
        let rest = spec_lines(t, from + 1);
        let l = spec_lines(t, from);
        assert forall|i: int| 0 <= i < l.len() implies from <= (#[trigger] l[i]).0 <= l[i].1
            <= t.len() by {
            if i > 0 {
                assert(l[i] == rest.skip(1)[i - 1]);
                assert(rest.skip(1)[i - 1] == rest[i]);
            } else {
                assert(l[0].1 == rest[0].1);
            }
        }
    }
}


/// The newline count is never negative.
pub proof fn lemma_newline_count_nonneg(s: Seq<u8>, upto: int)
    ensures
        newline_count(s, upto) >= 0,
    decreases upto,
{
    if upto > 0 {
        lemma_newline_count_nonneg(s, upto - 1);
    }
}

} // verus!
