//! Report rendering: the printable block for one allocation site, with
//! excerpt selection and, on a terminal, ANSI highlighting of the captured
//! spans.
//!
//! The excerpt keeps every line from the function signature through the line
//! holding the opening brace, every line where a captured span starts, the
//! final statement when it is a `return` ending in `;`, and the final closing
//! line; non-contiguous runs of kept lines are separated by a `...` marker.

use vstd::prelude::*;

use crate::bytes::{append_bytes, contains_subslice, copy_range, is_substring};
use crate::lines::{byte_offset_to_line_number, newline_count, spec_lines, split_lines};

verus! {

/// Header text before the struct name.
pub open spec fn hdr_pre() -> Seq<u8> {
    seq![61u8, 61u8, 61u8, 61u8, 61u8, 61u8, 61u8, 61u8, 32u8, 70u8, 111u8, 117u8, 110u8, 100u8, 32u8, 97u8, 108u8, 108u8, 111u8, 99u8, 97u8, 116u8, 105u8, 111u8, 110u8, 32u8, 115u8, 105u8, 116u8, 101u8, 32u8, 102u8, 111u8, 114u8, 58u8, 32u8, 115u8, 116u8, 114u8, 117u8, 99u8, 116u8, 32u8]
}

/// Header text after the struct name, with the following blank line.
pub open spec fn hdr_suf() -> Seq<u8> {
    seq![32u8, 61u8, 61u8, 61u8, 61u8, 61u8, 61u8, 61u8, 61u8, 10u8, 10u8]
}

/// ANSI escape closing a highlighted span or bold text.
pub open spec fn ansi_reset() -> Seq<u8> {
    seq![27u8, 91u8, 48u8, 109u8]
}

/// ANSI escape opening bold text, also used to highlight captured spans.
pub open spec fn ansi_bold() -> Seq<u8> {
    seq![27u8, 91u8, 49u8, 109u8]
}

/// The gap marker line.
pub open spec fn ellipsis_line() -> Seq<u8> {
    seq![46u8, 46u8, 46u8, 10u8]
}

/// The keyword looked for in the final-statement rule.
pub open spec fn return_kw() -> Seq<u8> {
    seq![114u8, 101u8, 116u8, 117u8, 114u8, 110u8, 32u8]
}

/// Some nonempty captured range starts at position `k`.
pub open spec fn range_starts_at(rs: Seq<(usize, usize)>, k: int) -> bool {
    exists|j: int| 0 <= j < rs.len() && (#[trigger] rs[j]).0 == k && rs[j].0 < rs[j].1
}

/// Some nonempty captured range ends at position `k` (exclusive end).
pub open spec fn range_ends_at(rs: Seq<(usize, usize)>, k: int) -> bool {
    exists|j: int| 0 <= j < rs.len() && (#[trigger] rs[j]).1 == k && rs[j].0 < rs[j].1
}

/// One rendered byte: the escape opening a span that starts here, the byte,
/// and the escape closing a span that ends after it. Escapes only on a
/// terminal.
pub open spec fn hl_byte(t: Seq<u8>, rs: Seq<(usize, usize)>, k: int, tty: bool) -> Seq<u8> {
    (if tty && range_starts_at(rs, k) {
        ansi_bold()
    } else {
        Seq::empty()
    }) + seq![t[k]] + (if tty && range_ends_at(rs, k + 1) {
        ansi_reset()
    } else {
        Seq::empty()
    })
}

/// The bytes `[from, to)` of `t`, rendered with span highlighting.
pub open spec fn hl_segment(t: Seq<u8>, rs: Seq<(usize, usize)>, from: int, to: int, tty: bool) -> Seq<u8>
    decreases to - from,
{
    if from >= to {
        Seq::empty()
    } else {
        hl_byte(t, rs, from, tty) + hl_segment(t, rs, from + 1, to, tty)
    }
}

/// Some captured range intersects the line `[start, end]` (its bytes or its
/// newline position): the range starts within the line, or runs across its
/// start.
pub open spec fn range_touches_line(rs: Seq<(usize, usize)>, start: int, end: int) -> bool {
    exists|j: int|
        0 <= j < rs.len() && (start <= (#[trigger] rs[j]).0 <= end || (rs[j].0 < start && start
            < rs[j].1))
}

/// The line `[start, end)` of `t` holds `return ` and ends in `;`.
pub open spec fn is_return_line(t: Seq<u8>, start: int, end: int) -> bool {
    start < end <= t.len() && is_substring(t.subrange(start, end), return_kw()) && t[end - 1]
        == 59
}

/// Whether excerpt line `i` is kept.
pub open spec fn line_included(
    t: Seq<u8>,
    ls: Seq<(usize, usize)>,
    rs: Seq<(usize, usize)>,
    brace_line: int,
    i: int,
) -> bool {
    ||| i <= brace_line
    ||| range_touches_line(rs, ls[i].0 as int, ls[i].1 as int)
    ||| i == ls.len() - 1
    ||| (i == ls.len() - 2 && is_return_line(t, ls[i].0 as int, ls[i].1 as int))
}

/// The rendered excerpt from line `i` on, `last` being the index of the last
/// kept line so far (-1 at the start).
pub open spec fn spec_excerpt(
    t: Seq<u8>,
    ls: Seq<(usize, usize)>,
    rs: Seq<(usize, usize)>,
    brace_line: int,
    tty: bool,
    i: int,
    last: int,
) -> Seq<u8>
    decreases ls.len() - i,
{
    if i < 0 || i >= ls.len() {
        Seq::empty()
    } else if line_included(t, ls, rs, brace_line, i) {
        (if i != last + 1 {
            ellipsis_line()
        } else {
            Seq::empty()
        }) + hl_segment(t, rs, ls[i].0 as int, ls[i].1 as int, tty) + seq![10u8]
            + spec_excerpt(t, ls, rs, brace_line, tty, i + 1, i)
    } else {
        spec_excerpt(t, ls, rs, brace_line, tty, i + 1, last)
    }
}

/// Position of the first `{` of `t` at or after `from`, or the length.
pub open spec fn first_brace(t: Seq<u8>, from: int) -> int
    decreases t.len() - from,
{
    if from < 0 || from >= t.len() {
        t.len() as int
    } else if t[from] == 123 {
        from
    } else {
        first_brace(t, from + 1)
    }
}

/// The text holds an opening brace.
pub open spec fn has_brace(t: Seq<u8>) -> bool {
    first_brace(t, 0) < t.len()
}

/// Index of the line holding the first opening brace.
pub open spec fn brace_line_of(t: Seq<u8>) -> int {
    newline_count(t, first_brace(t, 0))
}

/// The decimal digits of `n`.
pub open spec fn dec_digits(n: int) -> Seq<u8>
    decreases n,
{
    if n < 10 {
        seq![(48 + if n >= 0 { n } else { 0 }) as u8]
    } else {
        dec_digits(n / 10) + seq![(48 + n % 10) as u8]
    }
}

/// The whole report block for one allocation site.
pub open spec fn spec_report(
    name: Seq<u8>,
    layout: Seq<u8>,
    path: Seq<u8>,
    line_no: int,
    t: Seq<u8>,
    rs: Seq<(usize, usize)>,
    tty: bool,
) -> Seq<u8> {
    hdr_pre() + name + hdr_suf() + layout + seq![10u8, 10u8] + (if tty {
        ansi_bold() + path + ansi_reset()
    } else {
        path
    }) + seq![58u8] + dec_digits(line_no) + seq![10u8] + spec_excerpt(
        t,
        spec_lines(t, 0),
        rs,
        brace_line_of(t),
        tty,
        0,
        -1,
    ) + seq![10u8]
}


/// Append the literal `hdr_pre` text.
fn append_hdr_pre(out: &mut Vec<u8>)
    ensures
        final(out)@ == old(out)@ + hdr_pre(),
{
    let ghost orig = out@;
    out.push(61);
    out.push(61);
    out.push(61);
    out.push(61);
    out.push(61);
    out.push(61);
    out.push(61);
    out.push(61);
    out.push(32);
    out.push(70);
    out.push(111);
    out.push(117);
    out.push(110);
    out.push(100);
    out.push(32);
    out.push(97);
    out.push(108);
    out.push(108);
    out.push(111);
    out.push(99);
    out.push(97);
    out.push(116);
    out.push(105);
    out.push(111);
    out.push(110);
    out.push(32);
    out.push(115);
    out.push(105);
    out.push(116);
    out.push(101);
    out.push(32);
    out.push(102);
    out.push(111);
    out.push(114);
    out.push(58);
    out.push(32);
    out.push(115);
    out.push(116);
    out.push(114);
    out.push(117);
    out.push(99);
    out.push(116);
    out.push(32);
    assert(out@ =~= orig + hdr_pre());
}

/// Append the literal `hdr_suf` text.
fn append_hdr_suf(out: &mut Vec<u8>)
    ensures
        final(out)@ == old(out)@ + hdr_suf(),
{
    let ghost orig = out@;
    out.push(32);
    out.push(61);
    out.push(61);
    out.push(61);
    out.push(61);
    out.push(61);
    out.push(61);
    out.push(61);
    out.push(61);
    out.push(10);
    out.push(10);
    assert(out@ =~= orig + hdr_suf());
}

/// Append the literal `ansi_reset` text.
fn append_reset(out: &mut Vec<u8>)
    ensures
        final(out)@ == old(out)@ + ansi_reset(),
{
    let ghost orig = out@;
    out.push(27);
    out.push(91);
    out.push(48);
    out.push(109);
    assert(out@ =~= orig + ansi_reset());
}

/// Append the literal `ansi_bold` text.
fn append_bold(out: &mut Vec<u8>)
    ensures
        final(out)@ == old(out)@ + ansi_bold(),
{
    let ghost orig = out@;
    out.push(27);
    out.push(91);
    out.push(49);
    out.push(109);
    assert(out@ =~= orig + ansi_bold());
}

/// Append the literal `ellipsis_line` text.
fn append_ellipsis(out: &mut Vec<u8>)
    ensures
        final(out)@ == old(out)@ + ellipsis_line(),
{
    let ghost orig = out@;
    out.push(46);
    out.push(46);
    out.push(46);
    out.push(10);
    assert(out@ =~= orig + ellipsis_line());
}

/// The `return ` keyword as a byte vector.
fn return_kw_vec() -> (r: Vec<u8>)
    ensures
        r@ == return_kw(),
{
    let mut out: Vec<u8> = Vec::new();
    out.push(114);
    out.push(101);
    out.push(116);
    out.push(117);
    out.push(114);
    out.push(110);
    out.push(32);
    assert(out@ =~= return_kw());
    out
}


/// Offset of the first opening brace, if any.
fn find_brace(t: &Vec<u8>) -> (r: Option<usize>)
    ensures
        match r {
            Some(k) => k == first_brace(t@, 0) && k < t@.len(),
            None => !has_brace(t@),
        },
{
    let n = t.len();
    let mut k: usize = 0;
    while k < n
        invariant
            n == t@.len(),
            k <= n,
            first_brace(t@, 0) == first_brace(t@, k as int),
        decreases n - k,
    {
        if t[k] == 123 {
            return Some(k);
        }
        k += 1;
    }
    None
}

/// Whether some nonempty captured range starts at `k`.
fn has_range_start_at(rs: &Vec<(usize, usize)>, k: usize) -> (r: bool)
    ensures
        r == range_starts_at(rs@, k as int),
{
    let n = rs.len();
    let mut j: usize = 0;
    while j < n
        invariant
            n == rs@.len(),
            j <= n,
            forall|m: int| 0 <= m < j ==> !((#[trigger] rs@[m]).0 == k && rs@[m].0 < rs@[m].1),
        decreases n - j,
    {
        if rs[j].0 == k && rs[j].0 < rs[j].1 {
            return true;
        }
        j += 1;
    }
    false
}

/// Whether some nonempty captured range ends at `k` (exclusive end).
fn has_range_end_at(rs: &Vec<(usize, usize)>, k: usize) -> (r: bool)
    ensures
        r == range_ends_at(rs@, k as int),
{
    let n = rs.len();
    let mut j: usize = 0;
    while j < n
        invariant
            n == rs@.len(),
            j <= n,
            forall|m: int| 0 <= m < j ==> !((#[trigger] rs@[m]).1 == k && rs@[m].0 < rs@[m].1),
        decreases n - j,
    {
        if rs[j].1 == k && rs[j].0 < rs[j].1 {
            return true;
        }
        j += 1;
    }
    false
}

/// Whether some captured range intersects the line `[start, end]`.
fn has_range_in_line(rs: &Vec<(usize, usize)>, start: usize, end: usize) -> (r: bool)
    ensures
        r == range_touches_line(rs@, start as int, end as int),
{
    let n = rs.len();
    let mut j: usize = 0;
    while j < n
        invariant
            n == rs@.len(),
            j <= n,
            forall|m: int|
                0 <= m < j ==> !(start <= (#[trigger] rs@[m]).0 <= end || (rs@[m].0 < start
                    && start < rs@[m].1)),
        decreases n - j,
    {
        if (start <= rs[j].0 && rs[j].0 <= end) || (rs[j].0 < start && start < rs[j].1) {
            return true;
        }
        j += 1;
    }
    false
}

/// Whether the line `[start, end)` holds `return ` and ends in `;`.
fn line_is_return(t: &Vec<u8>, start: usize, end: usize) -> (r: bool)
    requires
        start <= end <= t@.len(),
    ensures
        r == is_return_line(t@, start as int, end as int),
{
    if start >= end {
        return false;
    }
    if t[end - 1] != 59 {
        return false;
    }
    let line = copy_range(t, start, end);
    let kw = return_kw_vec();
    contains_subslice(&line, &kw)
}

/// The decimal digits of `n`.
pub fn usize_to_dec(n: usize) -> (r: Vec<u8>)
    ensures
        r@ == dec_digits(n as int),
    decreases n,
{
    if n < 10 {
        let mut r: Vec<u8> = Vec::new();
        r.push(48 + (n as u8));
        assert(r@ =~= dec_digits(n as int));
        r
    } else {
        let mut r = usize_to_dec(n / 10);
        r.push(48 + ((n % 10) as u8));
        assert(r@ =~= dec_digits((n / 10) as int) + seq![(48 + (n as int) % 10) as u8]);
        r
    }
}

/// Rendering one more byte extends the rendered segment at its end.
proof fn lemma_hl_snoc(t: Seq<u8>, rs: Seq<(usize, usize)>, from: int, k: int, tty: bool)
    requires
        from <= k,
    ensures
        hl_segment(t, rs, from, k + 1, tty) == hl_segment(t, rs, from, k, tty) + hl_byte(
            t,
            rs,
            k,
            tty,
        ),
    decreases k - from,
{
    if from == k {
        assert(hl_segment(t, rs, from + 1, k + 1, tty) =~= Seq::<u8>::empty());
        assert(hl_segment(t, rs, from, k + 1, tty) =~= hl_segment(t, rs, from, k, tty) + hl_byte(
            t,
            rs,
            k,
            tty,
        ));
    } else {
        lemma_hl_snoc(t, rs, from + 1, k, tty);
        assert(hl_segment(t, rs, from, k + 1, tty) =~= hl_segment(t, rs, from, k, tty) + hl_byte(
            t,
            rs,
            k,
            tty,
        ));
    }
}

/// Append the bytes `[start, end)` of `t`, highlighted.
fn append_hl_line(
    out: &mut Vec<u8>,
    t: &Vec<u8>,
    rs: &Vec<(usize, usize)>,
    start: usize,
    end: usize,
    tty: bool,
)
    requires
        start <= end <= t@.len(),
    ensures
        final(out)@ == old(out)@ + hl_segment(t@, rs@, start as int, end as int, tty),
{
    let ghost orig = out@;
    let n = t.len();
    let mut k: usize = start;
    while k < end
        invariant
            n == t@.len(),
            start <= k <= end <= n,
            out@ == orig + hl_segment(t@, rs@, start as int, k as int, tty),
        decreases end - k,
    {
        let ghost before = out@;
        if tty && has_range_start_at(rs, k) {
            append_bold(out);
        }
        out.push(t[k]);
        if tty && has_range_end_at(rs, k + 1) {
            append_reset(out);
        }
        assert(out@ =~= before + hl_byte(t@, rs@, k as int, tty));
        proof {
            lemma_hl_snoc(t@, rs@, start as int, k as int, tty);
        }
        k += 1;
    }
    assert(out@ =~= orig + hl_segment(t@, rs@, start as int, end as int, tty));
}


/// Render the excerpt of `t` with the kept-line rule and gap markers.
pub fn render_excerpt(t: &Vec<u8>, rs: &Vec<(usize, usize)>, brace_line: usize, tty: bool) -> (r:
    Vec<u8>)
    ensures
        r@ == spec_excerpt(t@, spec_lines(t@, 0), rs@, brace_line as int, tty, 0, -1),
{
    let tn = t.len();
    let ls = split_lines(t);
    proof {
        assert(tn == t@.len());
        crate::lines::lemma_lines_wf(t@, 0);
    }
    let m = ls.len();
    let mut out: Vec<u8> = Vec::new();
    let mut i: usize = 0;
    let ghost mut last: int = -1int;
    let mut last_plus_one: usize = 0;
    while i < m
        invariant
            ls@ == spec_lines(t@, 0),
            m == ls@.len(),
            i <= m,
            forall|q: int| 0 <= q < ls@.len() ==> (#[trigger] ls@[q]).0 <= ls@[q].1 <= t@.len(),
            last_plus_one == last + 1,
            -1 <= last < i,
            spec_excerpt(t@, ls@, rs@, brace_line as int, tty, 0, -1) == out@ + spec_excerpt(
                t@,
                ls@,
                rs@,
                brace_line as int,
                tty,
                i as int,
                last,
            ),
        decreases m - i,
    {
        let s = ls[i].0;
        let e = ls[i].1;
        let inc = i <= brace_line || has_range_in_line(rs, s, e) || i == m - 1 || (i + 2 == m
            && line_is_return(t, s, e));
        assert(inc == line_included(t@, ls@, rs@, brace_line as int, i as int));
        if inc {
            if i != last_plus_one {
                append_ellipsis(&mut out);
            }
            append_hl_line(&mut out, t, rs, s, e, tty);
            out.push(10);
            proof {
                last = i as int;
            }
            last_plus_one = i + 1;
        }
        i += 1;
    }
    out
}

/// Render the whole report block for one allocation site, or `None` when the
/// function text holds no opening brace (the caller skips the match with a
/// diagnostic instead of failing the run).
pub fn render_report(
    name: &Vec<u8>,
    layout: &Vec<u8>,
    path: &Vec<u8>,
    line_no: usize,
    t: &Vec<u8>,
    rs: &Vec<(usize, usize)>,
    tty: bool,
) -> (r: Option<Vec<u8>>)
    ensures
        match r {
            Some(v) => has_brace(t@) && v@ == spec_report(
                name@,
                layout@,
                path@,
                line_no as int,
                t@,
                rs@,
                tty,
            ),
            None => !has_brace(t@),
        },
{
    let bpos = match find_brace(t) {
        Some(k) => k,
        None => {
            return None;
        },
    };
    let bline = match byte_offset_to_line_number(t, bpos) {
        Some(l) => l,
        None => {
            proof {
                assert(false);
            }
            return None;
        },
    };
    proof {
        crate::lines::lemma_newline_count_nonneg(t@, bpos as int);
    }
    let brace_line = bline - 1;
    assert(brace_line == brace_line_of(t@));
    let mut out: Vec<u8> = Vec::new();
    append_hdr_pre(&mut out);
    append_bytes(&mut out, name);
    append_hdr_suf(&mut out);
    append_bytes(&mut out, layout);
    out.push(10);
    out.push(10);
    if tty {
        append_bold(&mut out);
        append_bytes(&mut out, path);
        append_reset(&mut out);
    } else {
        append_bytes(&mut out, path);
    }
    out.push(58);
    let digits = usize_to_dec(line_no);
    append_bytes(&mut out, &digits);
    out.push(10);
    let ex = render_excerpt(t, rs, brace_line, tty);
    append_bytes(&mut out, &ex);
    out.push(10);
    assert(out@ =~= spec_report(name@, layout@, path@, line_no as int, t@, rs@, tty));
    Some(out)
}

/// No byte of `s` is the ANSI escape byte.
pub open spec fn esc_free(s: Seq<u8>) -> bool {
    forall|k: int| 0 <= k < s.len() ==> s[k] != 27
}

proof fn lemma_esc_free_concat(a: Seq<u8>, b: Seq<u8>)
    requires
        esc_free(a),
        esc_free(b),
    ensures
        esc_free(a + b),
{
    assert forall|k: int| 0 <= k < (a + b).len() implies (a + b)[k] != 27 by {
        if k < a.len() {
            assert((a + b)[k] == a[k]);
        } else {
            assert((a + b)[k] == b[k - a.len()]);
        }
    }
}

proof fn lemma_esc_free_subrange(t: Seq<u8>, from: int, to: int)
    requires
        esc_free(t),
        0 <= from <= to <= t.len(),
    ensures
        esc_free(t.subrange(from, to)),
{
    assert forall|k: int| 0 <= k < t.subrange(from, to).len() implies t.subrange(from, to)[k]
        != 27 by {
        assert(t.subrange(from, to)[k] == t[from + k]);
    }
}

/// Without a terminal the rendered segment is exactly the text itself.
proof fn lemma_hl_segment_plain(t: Seq<u8>, rs: Seq<(usize, usize)>, from: int, to: int)
    requires
        0 <= from <= to <= t.len(),
    ensures
        hl_segment(t, rs, from, to, false) == t.subrange(from, to),
    decreases to - from,
{
    if from >= to {
        assert(hl_segment(t, rs, from, to, false) =~= t.subrange(from, to));
    } else {
        lemma_hl_segment_plain(t, rs, from + 1, to);
        assert(hl_byte(t, rs, from, false) =~= seq![t[from]]);
        assert(hl_segment(t, rs, from, to, false) =~= t.subrange(from, to));
    }
}

proof fn lemma_excerpt_esc_free(
    t: Seq<u8>,
    ls: Seq<(usize, usize)>,
    rs: Seq<(usize, usize)>,
    brace_line: int,
    i: int,
    last: int,
)
    requires
        esc_free(t),
        forall|q: int| 0 <= q < ls.len() ==> (#[trigger] ls[q]).0 <= ls[q].1 <= t.len(),
    ensures
        esc_free(spec_excerpt(t, ls, rs, brace_line, false, i, last)),
    decreases ls.len() - i,
{
    if i < 0 || i >= ls.len() {
    } else if line_included(t, ls, rs, brace_line, i) {
        lemma_excerpt_esc_free(t, ls, rs, brace_line, i + 1, i);
        lemma_hl_segment_plain(t, rs, ls[i].0 as int, ls[i].1 as int);
        lemma_esc_free_subrange(t, ls[i].0 as int, ls[i].1 as int);
        let gap = if i != last + 1 {
            ellipsis_line()
        } else {
            Seq::<u8>::empty()
        };
        assert(esc_free(gap));
        lemma_esc_free_concat(gap, hl_segment(t, rs, ls[i].0 as int, ls[i].1 as int, false));
        lemma_esc_free_concat(
            gap + hl_segment(t, rs, ls[i].0 as int, ls[i].1 as int, false),
            seq![10u8],
        );
        lemma_esc_free_concat(
            gap + hl_segment(t, rs, ls[i].0 as int, ls[i].1 as int, false) + seq![10u8],
            spec_excerpt(t, ls, rs, brace_line, false, i + 1, i),
        );
    } else {
        lemma_excerpt_esc_free(t, ls, rs, brace_line, i + 1, last);
    }
}

proof fn lemma_dec_digits_esc_free(n: int)
    ensures
        esc_free(dec_digits(n)),
    decreases n,
{
    if n < 10 {
    } else {
        lemma_dec_digits_esc_free(n / 10);
        lemma_esc_free_concat(dec_digits(n / 10), seq![(48 + n % 10) as u8]);
    }
}

/// When the output is not a terminal, no ANSI escape byte stands anywhere in
/// the rendered report, provided none stands in the inputs themselves.
pub proof fn lemma_report_no_ansi(
    name: Seq<u8>,
    layout: Seq<u8>,
    path: Seq<u8>,
    line_no: int,
    t: Seq<u8>,
    rs: Seq<(usize, usize)>,
)
    requires
        esc_free(name),
        esc_free(layout),
        esc_free(path),
        esc_free(t),
        t.len() <= usize::MAX,
    ensures
        esc_free(spec_report(name, layout, path, line_no, t, rs, false)),
{
    crate::lines::lemma_lines_wf(t, 0);
    lemma_excerpt_esc_free(t, spec_lines(t, 0), rs, brace_line_of(t), 0, -1);
    lemma_dec_digits_esc_free(line_no);
    assert(esc_free(hdr_pre()));
    assert(esc_free(hdr_suf()));
    let a1 = hdr_pre() + name;
    lemma_esc_free_concat(hdr_pre(), name);
    let a2 = a1 + hdr_suf();
    lemma_esc_free_concat(a1, hdr_suf());
    let a3 = a2 + layout;
    lemma_esc_free_concat(a2, layout);
    let a4 = a3 + seq![10u8, 10u8];
    lemma_esc_free_concat(a3, seq![10u8, 10u8]);
    let a5 = a4 + path;
    lemma_esc_free_concat(a4, path);
    let a6 = a5 + seq![58u8];
    lemma_esc_free_concat(a5, seq![58u8]);
    let a7 = a6 + dec_digits(line_no);
    lemma_esc_free_concat(a6, dec_digits(line_no));
    let a8 = a7 + seq![10u8];
    lemma_esc_free_concat(a7, seq![10u8]);
    let a9 = a8 + spec_excerpt(t, spec_lines(t, 0), rs, brace_line_of(t), false, 0, -1);
    lemma_esc_free_concat(a8, spec_excerpt(t, spec_lines(t, 0), rs, brace_line_of(t), false, 0, -1));
    lemma_esc_free_concat(a9, seq![10u8]);
    assert(spec_report(name, layout, path, line_no, t, rs, false) == a9 + seq![10u8]);
}


/// On a terminal, each captured span is wrapped in highlight escapes: the
/// span's first byte is rendered with the opening escape before it, and its
/// last byte with the closing escape after it.
pub proof fn lemma_span_highlighted(t: Seq<u8>, rs: Seq<(usize, usize)>, j: int)
    requires
        0 <= j < rs.len(),
        rs[j].0 < rs[j].1,
    ensures
        hl_byte(t, rs, rs[j].0 as int, true).take(ansi_bold().len() as int) == ansi_bold(),
        hl_byte(t, rs, rs[j].1 - 1, true).skip(
            hl_byte(t, rs, rs[j].1 - 1, true).len() - ansi_reset().len(),
        ) == ansi_reset(),
{
    assert(range_starts_at(rs, rs[j].0 as int));
    assert(range_ends_at(rs, (rs[j].1 - 1) + 1));
    assert(hl_byte(t, rs, rs[j].0 as int, true).take(ansi_bold().len() as int) =~= ansi_bold());
    assert(hl_byte(t, rs, rs[j].1 - 1, true).skip(
        hl_byte(t, rs, rs[j].1 - 1, true).len() - ansi_reset().len(),
    ) =~= ansi_reset());
}

} // verus!
