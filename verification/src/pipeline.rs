//! Per-file scanning: the prefilter, the three arity-specific structural
//! queries, the declared/assigned-name join, the catalog lookup, the flags
//! filter, and rendering — everything that decides which report blocks one
//! file yields.
//!
//! The surrounding application drives this over the corpus concurrently; this
//! function is a pure decision from the file's bytes and the configuration to
//! the list of report blocks, so the schedule can only change the order of
//! blocks, never their set.

use vstd::prelude::*;

use crate::bytes::{bytes_eq, clone_bytes, copy_range, lossy_of, lossy_utf8};
use crate::catalog::{spec_lookup_idx, StructType, TypeCatalog};
use crate::flags::{flags_accept, regex_pattern, spec_flags_accept};
use crate::lines::{byte_offset_to_line_number, line_number_at};
use crate::prefilter::{all_idents_present, might_match};
use crate::query::{
    build_query, c_parses, compile_query, interpret_match, parse_c, query_capture_names,
    run_query, spec_alloc_query, spec_interpret, ts_capture_names, ts_query_matches, ts_query_ok,
    MatchSpans,
};
use crate::render::{has_brace, render_report, spec_report};

verus! {

/// Why a file was skipped instead of scanned.
#[derive(Clone, Copy, Debug, PartialEq, Eq, Structural)]
pub enum ScanSkip {
    /// The parser returned no syntax tree for the file.
    ParseFailed,
    /// The query engine rejected a query source.
    QueryFailed,
}

/// Configuration of one scan pass.
pub struct ScanConfig {
    /// Allocator-name pattern spliced into the query's `#match?` predicate.
    pub allocator_pattern: Vec<u8>,
    /// Identifiers that must occur literally in a file before it is parsed.
    pub required_idents: Vec<Vec<u8>>,
    /// The flags-argument filter; `None` accepts every match.
    pub flags_regex: Option<regex::bytes::Regex>,
    /// Whether a match without a flags argument is rejected when a flags
    /// regex is configured.
    pub reject_missing_flags: bool,
    /// Print only struct names instead of full report blocks.
    pub quiet: bool,
    /// Whether the output is an interactive terminal.
    pub tty: bool,
}

/// The pattern of an optional compiled regex.
pub open spec fn spec_regex_opt(o: Option<regex::bytes::Regex>) -> Option<Seq<u8>> {
    match o {
        Option::Some(re) => Option::Some(regex_pattern(re)),
        Option::None => Option::None,
    }
}

/// A range shifted down by the function start.
pub open spec fn rel_range(r: (usize, usize), base: usize) -> (usize, usize) {
    (((r.0 - base) as usize), ((r.1 - base) as usize))
}

/// The highlight ranges of a match, relative to its function text: struct
/// name, declared name, assigned name, callee name, and the flags argument
/// when present.
pub open spec fn spec_rel_ranges(sp: MatchSpans) -> Seq<(usize, usize)> {
    seq![
        rel_range(sp.struct_name, sp.func.0),
        rel_range(sp.decl_name, sp.func.0),
        rel_range(sp.assign_name, sp.func.0),
        rel_range(sp.callee, sp.func.0),
    ] + match sp.flags {
        Option::Some(f) => seq![rel_range(f, sp.func.0)],
        Option::None => Seq::empty(),
    }
}

/// The report block one raw match yields, if any: the match must interpret
/// into well-formed spans, the declared and assigned names must agree, the
/// struct name must stand in the catalog, the flags filter must accept, and
/// the function text must hold an opening brace. In quiet mode the block is
/// the bare struct name.
pub open spec fn spec_match_block(
    content: Seq<u8>,
    path: Seq<u8>,
    m: Seq<(usize, usize, usize)>,
    names: Seq<Seq<u8>>,
    entries: Seq<StructType>,
    fpat: Option<Seq<u8>>,
    reject_missing: bool,
    quiet: bool,
    tty: bool,
) -> Option<Seq<u8>> {
    match spec_interpret(m, names, content.len() as int) {
        Option::None => Option::None,
        Option::Some(sp) => {
            if content.subrange(sp.decl_name.0 as int, sp.decl_name.1 as int) != content.subrange(
                sp.assign_name.0 as int,
                sp.assign_name.1 as int,
            ) {
                Option::None
            } else {
                match spec_lookup_idx(
                    entries,
                    content.subrange(sp.struct_name.0 as int, sp.struct_name.1 as int),
                    0,
                ) {
                    Option::None => Option::None,
                    Option::Some(j) => {
                        if !spec_flags_accept(
                            fpat,
                            match sp.flags {
                                Option::Some(f) => Option::Some(
                                    content.subrange(f.0 as int, f.1 as int),
                                ),
                                Option::None => Option::None,
                            },
                            reject_missing,
                        ) {
                            Option::None
                        } else if quiet {
                            Option::Some(entries[j].name@ + seq![10u8])
                        } else if !has_brace(
                            content.subrange(sp.func.0 as int, sp.func.1 as int),
                        ) {
                            Option::None
                        } else {
                            Option::Some(
                                spec_report(
                                    entries[j].name@,
                                    entries[j].layout@,
                                    path,
                                    line_number_at(content, sp.func.0 as int),
                                    content.subrange(sp.func.0 as int, sp.func.1 as int),
                                    spec_rel_ranges(sp),
                                    tty,
                                ),
                            )
                        }
                    },
                }
            }
        },
    }
}

/// The report blocks of a list of raw matches, from position `i` on, in
/// match order.
pub open spec fn spec_file_blocks(
    content: Seq<u8>,
    path: Seq<u8>,
    ms: Seq<Seq<(usize, usize, usize)>>,
    names: Seq<Seq<u8>>,
    entries: Seq<StructType>,
    fpat: Option<Seq<u8>>,
    reject_missing: bool,
    quiet: bool,
    tty: bool,
    i: int,
) -> Seq<Seq<u8>>
    decreases ms.len() - i,
{
    if i < 0 || i >= ms.len() {
        Seq::empty()
    } else {
        let rest = spec_file_blocks(
            content,
            path,
            ms,
            names,
            entries,
            fpat,
            reject_missing,
            quiet,
            tty,
            i + 1,
        );
        match spec_match_block(
            content,
            path,
            ms[i],
            names,
            entries,
            fpat,
            reject_missing,
            quiet,
            tty,
        ) {
            Option::Some(b) => seq![b] + rest,
            Option::None => rest,
        }
    }
}

/// The report blocks of one file under one query: the query's matches against
/// the content, filtered and rendered.
pub open spec fn spec_query_blocks(
    content: Seq<u8>,
    path: Seq<u8>,
    arity: int,
    entries: Seq<StructType>,
    alloc_pat: Seq<u8>,
    fpat: Option<Seq<u8>>,
    reject_missing: bool,
    quiet: bool,
    tty: bool,
) -> Seq<Seq<u8>> {
    spec_file_blocks(
        content,
        path,
        ts_query_matches(spec_alloc_query(arity, alloc_pat), content),
        ts_capture_names(spec_alloc_query(arity, alloc_pat)),
        entries,
        fpat,
        reject_missing,
        quiet,
        tty,
        0,
    )
}

/// The report blocks of one file over all three arity query shapes, in query
/// order.
pub open spec fn spec_scan_blocks(
    content: Seq<u8>,
    path: Seq<u8>,
    entries: Seq<StructType>,
    alloc_pat: Seq<u8>,
    fpat: Option<Seq<u8>>,
    reject_missing: bool,
    quiet: bool,
    tty: bool,
) -> Seq<Seq<u8>> {
    spec_query_blocks(content, path, 1, entries, alloc_pat, fpat, reject_missing, quiet, tty)
        + spec_query_blocks(content, path, 2, entries, alloc_pat, fpat, reject_missing, quiet, tty)
        + spec_query_blocks(content, path, 3, entries, alloc_pat, fpat, reject_missing, quiet, tty)
}

/// Whether one raw match is degraded rather than merely filtered: its
/// captures do not interpret into well-formed spans, the declared and
/// assigned names disagree although the query joins them, or a match that
/// would be reported has no opening brace in its function text. Such a match
/// is skipped and the scan records a diagnostic; a match dropped by the
/// catalog or the flags filter is ordinary filtering, not degradation.
pub open spec fn spec_match_broken(
    content: Seq<u8>,
    m: Seq<(usize, usize, usize)>,
    names: Seq<Seq<u8>>,
    entries: Seq<StructType>,
    fpat: Option<Seq<u8>>,
    reject_missing: bool,
    quiet: bool,
) -> bool {
    match spec_interpret(m, names, content.len() as int) {
        Option::None => true,
        Option::Some(sp) => {
            if content.subrange(sp.decl_name.0 as int, sp.decl_name.1 as int) != content.subrange(
                sp.assign_name.0 as int,
                sp.assign_name.1 as int,
            ) {
                true
            } else {
                match spec_lookup_idx(
                    entries,
                    content.subrange(sp.struct_name.0 as int, sp.struct_name.1 as int),
                    0,
                ) {
                    Option::None => false,
                    Option::Some(j) => {
                        if !spec_flags_accept(
                            fpat,
                            match sp.flags {
                                Option::Some(f) => Option::Some(
                                    content.subrange(f.0 as int, f.1 as int),
                                ),
                                Option::None => Option::None,
                            },
                            reject_missing,
                        ) {
                            false
                        } else if quiet {
                            false
                        } else {
                            !has_brace(content.subrange(sp.func.0 as int, sp.func.1 as int))
                        }
                    },
                }
            }
        },
    }
}

/// Whether any raw match from position `i` on is degraded.
pub open spec fn spec_any_broken(
    content: Seq<u8>,
    ms: Seq<Seq<(usize, usize, usize)>>,
    names: Seq<Seq<u8>>,
    entries: Seq<StructType>,
    fpat: Option<Seq<u8>>,
    reject_missing: bool,
    quiet: bool,
    i: int,
) -> bool
    decreases ms.len() - i,
{
    if i < 0 || i >= ms.len() {
        false
    } else {
        spec_match_broken(content, ms[i], names, entries, fpat, reject_missing, quiet)
            || spec_any_broken(content, ms, names, entries, fpat, reject_missing, quiet, i + 1)
    }
}

/// Whether one query shape yields a degraded match on this file.
pub open spec fn spec_query_broken(
    content: Seq<u8>,
    arity: int,
    entries: Seq<StructType>,
    alloc_pat: Seq<u8>,
    fpat: Option<Seq<u8>>,
    reject_missing: bool,
    quiet: bool,
) -> bool {
    spec_any_broken(
        content,
        ts_query_matches(spec_alloc_query(arity, alloc_pat), content),
        ts_capture_names(spec_alloc_query(arity, alloc_pat)),
        entries,
        fpat,
        reject_missing,
        quiet,
        0,
    )
}

/// Whether any of the three query shapes yields a degraded match.
pub open spec fn spec_scan_degraded(
    content: Seq<u8>,
    entries: Seq<StructType>,
    alloc_pat: Seq<u8>,
    fpat: Option<Seq<u8>>,
    reject_missing: bool,
    quiet: bool,
) -> bool {
    ||| spec_query_broken(content, 1, entries, alloc_pat, fpat, reject_missing, quiet)
    ||| spec_query_broken(content, 2, entries, alloc_pat, fpat, reject_missing, quiet)
    ||| spec_query_broken(content, 3, entries, alloc_pat, fpat, reject_missing, quiet)
}

/// Whether the query shapes with arity below `upto` yield a degraded match.
pub open spec fn spec_degraded_prefix(
    content: Seq<u8>,
    entries: Seq<StructType>,
    alloc_pat: Seq<u8>,
    fpat: Option<Seq<u8>>,
    reject_missing: bool,
    quiet: bool,
    upto: int,
) -> bool {
    if upto <= 1 {
        false
    } else if upto == 2 {
        spec_query_broken(content, 1, entries, alloc_pat, fpat, reject_missing, quiet)
    } else if upto == 3 {
        spec_query_broken(content, 1, entries, alloc_pat, fpat, reject_missing, quiet)
            || spec_query_broken(content, 2, entries, alloc_pat, fpat, reject_missing, quiet)
    } else {
        spec_scan_degraded(content, entries, alloc_pat, fpat, reject_missing, quiet)
    }
}

/// Process the raw matches of one query run into report blocks.
fn process_matches(
    content: &Vec<u8>,
    path: &Vec<u8>,
    ms: &Vec<Vec<(usize, usize, usize)>>,
    names: &Vec<Vec<u8>>,
    catalog: &TypeCatalog,
    cfg: &ScanConfig,
    out: &mut Vec<Vec<u8>>,
    degraded: &mut bool,
)
    ensures
        *final(degraded) == (*old(degraded) || spec_any_broken(
            content@,
            ms@.map_values(|m: Vec<(usize, usize, usize)>| m@),
            names@.map_values(|v: Vec<u8>| v@),
            catalog.entries@,
            spec_regex_opt(cfg.flags_regex),
            cfg.reject_missing_flags,
            cfg.quiet,
            0,
        )),
        final(out)@.map_values(|b: Vec<u8>| b@) == old(out)@.map_values(|b: Vec<u8>| b@)
            + spec_file_blocks(
            content@,
            path@,
            ms@.map_values(|m: Vec<(usize, usize, usize)>| m@),
            names@.map_values(|v: Vec<u8>| v@),
            catalog.entries@,
            spec_regex_opt(cfg.flags_regex),
            cfg.reject_missing_flags,
            cfg.quiet,
            cfg.tty,
            0,
        ),
{
    let ghost msv = ms@.map_values(|m: Vec<(usize, usize, usize)>| m@);
    let ghost nv = names@.map_values(|v: Vec<u8>| v@);
    let ghost orig = out@.map_values(|b: Vec<u8>| b@);
    let ghost orig_deg = *degraded;
    let clen = content.len();
    let n = ms.len();
    let mut i: usize = 0;
    while i < n
        invariant
            msv == ms@.map_values(|m: Vec<(usize, usize, usize)>| m@),
            nv == names@.map_values(|v: Vec<u8>| v@),
            n == msv.len(),
            i <= n,
            clen == content@.len(),
            (*degraded || spec_any_broken(
                content@,
                msv,
                nv,
                catalog.entries@,
                spec_regex_opt(cfg.flags_regex),
                cfg.reject_missing_flags,
                cfg.quiet,
                i as int,
            )) == (orig_deg || spec_any_broken(
                content@,
                msv,
                nv,
                catalog.entries@,
                spec_regex_opt(cfg.flags_regex),
                cfg.reject_missing_flags,
                cfg.quiet,
                0,
            )),
            out@.map_values(|b: Vec<u8>| b@) + spec_file_blocks(
                content@,
                path@,
                msv,
                nv,
                catalog.entries@,
                spec_regex_opt(cfg.flags_regex),
                cfg.reject_missing_flags,
                cfg.quiet,
                cfg.tty,
                i as int,
            ) == orig + spec_file_blocks(
                content@,
                path@,
                msv,
                nv,
                catalog.entries@,
                spec_regex_opt(cfg.flags_regex),
                cfg.reject_missing_flags,
                cfg.quiet,
                cfg.tty,
                0,
            ),
        decreases n - i,
    {
        let ghost outv0 = out@.map_values(|b: Vec<u8>| b@);
        proof {
            assert(msv[i as int] == ms@[i as int]@);
        }
        let (block_opt, broken) = process_one_match(content, path, &ms[i], names, catalog, cfg);
        if broken {
            *degraded = true;
        }
        proof {
            assert(block_opt matches Some(b) ==> Some(b@) == spec_match_block(
                content@,
                path@,
                msv[i as int],
                nv,
                catalog.entries@,
                spec_regex_opt(cfg.flags_regex),
                cfg.reject_missing_flags,
                cfg.quiet,
                cfg.tty,
            ));
        }
        match block_opt {
            Some(b) => {
                let ghost bv = b@;
                out.push(b);
                assert(out@.map_values(|b: Vec<u8>| b@) =~= outv0.push(bv));
                assert(outv0.push(bv) =~= outv0 + seq![bv]);
            },
            None => {},
        }
        i += 1;
    }
    assert(out@.map_values(|b: Vec<u8>| b@) =~= orig + spec_file_blocks(
        content@,
        path@,
        msv,
        nv,
        catalog.entries@,
        spec_regex_opt(cfg.flags_regex),
        cfg.reject_missing_flags,
        cfg.quiet,
        cfg.tty,
        0,
    ));
}

/// Process one raw match: interpret, re-check the name join, look the struct
/// name up, filter by flags, and render. Besides the block, reports whether
/// the match was degraded (skipped with a diagnostic owed).
fn process_one_match(
    content: &Vec<u8>,
    path: &Vec<u8>,
    m: &Vec<(usize, usize, usize)>,
    names: &Vec<Vec<u8>>,
    catalog: &TypeCatalog,
    cfg: &ScanConfig,
) -> (r: (Option<Vec<u8>>, bool))
    ensures
        r.1 == spec_match_broken(
            content@,
            m@,
            names@.map_values(|v: Vec<u8>| v@),
            catalog.entries@,
            spec_regex_opt(cfg.flags_regex),
            cfg.reject_missing_flags,
            cfg.quiet,
        ),
        match r.0 {
            Some(b) => Some(b@) == spec_match_block(
                content@,
                path@,
                m@,
                names@.map_values(|v: Vec<u8>| v@),
                catalog.entries@,
                spec_regex_opt(cfg.flags_regex),
                cfg.reject_missing_flags,
                cfg.quiet,
                cfg.tty,
            ),
            None => spec_match_block(
                content@,
                path@,
                m@,
                names@.map_values(|v: Vec<u8>| v@),
                catalog.entries@,
                spec_regex_opt(cfg.flags_regex),
                cfg.reject_missing_flags,
                cfg.quiet,
                cfg.tty,
            ) is None,
        },
{
    let clen = content.len();
    let sp = match interpret_match(m, names, clen) {
        Some(sp) => sp,
        None => {
            return (None, true);
        },
    };
    let decl_txt = copy_range(content, sp.decl_name.0, sp.decl_name.1);
    let assign_txt = copy_range(content, sp.assign_name.0, sp.assign_name.1);
    if !bytes_eq(&decl_txt, &assign_txt) {
        return (None, true);
    }
    let sname = copy_range(content, sp.struct_name.0, sp.struct_name.1);
    let entry = match catalog.lookup(&sname) {
        Some(e) => e,
        None => {
            return (None, false);
        },
    };
    let flags_txt: Option<Vec<u8>> = match sp.flags {
        Some(f) => Some(copy_range(content, f.0, f.1)),
        None => None,
    };
    if !flags_accept(&cfg.flags_regex, &flags_txt, cfg.reject_missing_flags) {
        return (None, false);
    }
    if cfg.quiet {
        let mut b = clone_bytes(&entry.name);
        b.push(10);
        assert(b@ =~= entry.name@ + seq![10u8]);
        return (Some(b), false);
    }
    let ftext = copy_range(content, sp.func.0, sp.func.1);
    let line_no = match byte_offset_to_line_number(content, sp.func.0) {
        Some(l) => l,
        None => {
            proof {
                assert(false);
            }
            return (None, false);
        },
    };
    let mut rs: Vec<(usize, usize)> = Vec::new();
    rs.push((sp.struct_name.0 - sp.func.0, sp.struct_name.1 - sp.func.0));
    rs.push((sp.decl_name.0 - sp.func.0, sp.decl_name.1 - sp.func.0));
    rs.push((sp.assign_name.0 - sp.func.0, sp.assign_name.1 - sp.func.0));
    rs.push((sp.callee.0 - sp.func.0, sp.callee.1 - sp.func.0));
    match sp.flags {
        Some(f) => {
            rs.push((f.0 - sp.func.0, f.1 - sp.func.0));
        },
        None => {},
    }
    assert(rs@ =~= spec_rel_ranges(sp));
    match render_report(&entry.name, &entry.layout, path, line_no, &ftext, &rs, cfg.tty) {
        Some(v) => (Some(v), false),
        None => (None, true),
    }
}

/// What scanning one file produced: its report blocks, and whether some
/// structural match was degraded and skipped, so that the caller can record
/// a diagnostic.
pub struct ScanOutput {
    pub blocks: Vec<Vec<u8>>,
    pub degraded: bool,
}

/// Scan one file: decode its bytes lossily (each maximal invalid UTF-8
/// sequence becomes the replacement character, valid text is unchanged),
/// apply the prefilter, parse once, run the three arity query shapes, and
/// return the report blocks. Prefiltering, parsing and excerpting all work
/// on the decoded text.
///
/// Success is owed: a file the prefilter rejects yields `Ok` with no blocks,
/// and a file whose parse and three query compilations succeed yields `Ok`
/// with exactly the specified blocks. A parser or query failure — possible
/// only on the complementary inputs — is reported as a skip so that the rest
/// of the corpus goes on.
pub fn scan_file(
    content: &Vec<u8>,
    path: &Vec<u8>,
    catalog: &TypeCatalog,
    cfg: &ScanConfig,
) -> (r: Result<ScanOutput, ScanSkip>)
    ensures
        r is Ok <==> (!all_idents_present(lossy_of(content@), cfg.required_idents@) || (c_parses(lossy_of(content@))
            && ts_query_ok(spec_alloc_query(1, cfg.allocator_pattern@)) && ts_query_ok(
            spec_alloc_query(2, cfg.allocator_pattern@),
        ) && ts_query_ok(spec_alloc_query(3, cfg.allocator_pattern@)))),
        r == Result::<ScanOutput, ScanSkip>::Err(ScanSkip::ParseFailed) <==> (all_idents_present(
            lossy_of(content@),
            cfg.required_idents@,
        ) && !c_parses(lossy_of(content@))),
        r == Result::<ScanOutput, ScanSkip>::Err(ScanSkip::QueryFailed) <==> (all_idents_present(
            lossy_of(content@),
            cfg.required_idents@,
        ) && c_parses(lossy_of(content@)) && !(ts_query_ok(spec_alloc_query(1, cfg.allocator_pattern@))
            && ts_query_ok(spec_alloc_query(2, cfg.allocator_pattern@)) && ts_query_ok(
            spec_alloc_query(3, cfg.allocator_pattern@),
        ))),
        r matches Ok(v) ==> v.blocks@.map_values(|b: Vec<u8>| b@) == (if all_idents_present(
            lossy_of(content@),
            cfg.required_idents@,
        ) {
            spec_scan_blocks(
                lossy_of(content@),
                path@,
                catalog.entries@,
                cfg.allocator_pattern@,
                spec_regex_opt(cfg.flags_regex),
                cfg.reject_missing_flags,
                cfg.quiet,
                cfg.tty,
            )
        } else {
            Seq::empty()
        }),
        r matches Ok(v) ==> v.degraded == (all_idents_present(lossy_of(content@), cfg.required_idents@)
            && spec_scan_degraded(
            lossy_of(content@),
            catalog.entries@,
            cfg.allocator_pattern@,
            spec_regex_opt(cfg.flags_regex),
            cfg.reject_missing_flags,
            cfg.quiet,
        )),
{
    let lc = lossy_utf8(content);
    let mut out: Vec<Vec<u8>> = Vec::new();
    let mut degraded: bool = false;
    if !might_match(&lc, &cfg.required_idents) {
        assert(out@.map_values(|b: Vec<u8>| b@) =~= Seq::<Seq<u8>>::empty());
        return Ok(ScanOutput { blocks: out, degraded });
    }
    let tree = match parse_c(&lc) {
        Some(t) => t,
        None => {
            return Err(ScanSkip::ParseFailed);
        },
    };
    let mut arity: usize = 1;
    while arity <= 3
        invariant
            1 <= arity <= 4,
            lc@ == lossy_of(content@),
            all_idents_present(lc@, cfg.required_idents@),
            c_parses(lc@),
            crate::query::tree_content(tree) == lc@,
            forall|a: int|
                1 <= a < arity ==> ts_query_ok(spec_alloc_query(a, cfg.allocator_pattern@)),
            out@.map_values(|b: Vec<u8>| b@) == spec_scan_prefix(
                lc@,
                path@,
                catalog.entries@,
                cfg.allocator_pattern@,
                spec_regex_opt(cfg.flags_regex),
                cfg.reject_missing_flags,
                cfg.quiet,
                cfg.tty,
                arity as int,
            ),
            degraded == spec_degraded_prefix(
                lc@,
                catalog.entries@,
                cfg.allocator_pattern@,
                spec_regex_opt(cfg.flags_regex),
                cfg.reject_missing_flags,
                cfg.quiet,
                arity as int,
            ),
        decreases 4 - arity,
    {
        let src = build_query(arity, &cfg.allocator_pattern);
        let q = match compile_query(&src) {
            Some(q) => q,
            None => {
                return Err(ScanSkip::QueryFailed);
            },
        };
        let names = query_capture_names(&q);
        let ms = run_query(&q, &tree, &lc);
        process_matches(&lc, path, &ms, &names, catalog, cfg, &mut out, &mut degraded);
        arity += 1;
    }
    assert(out@.map_values(|b: Vec<u8>| b@) =~= spec_scan_blocks(
        lc@,
        path@,
        catalog.entries@,
        cfg.allocator_pattern@,
        spec_regex_opt(cfg.flags_regex),
        cfg.reject_missing_flags,
        cfg.quiet,
        cfg.tty,
    ));
    Ok(ScanOutput { blocks: out, degraded })
}

/// The report blocks of the query shapes with arity below `upto`.
pub open spec fn spec_scan_prefix(
    content: Seq<u8>,
    path: Seq<u8>,
    entries: Seq<StructType>,
    alloc_pat: Seq<u8>,
    fpat: Option<Seq<u8>>,
    reject_missing: bool,
    quiet: bool,
    tty: bool,
    upto: int,
) -> Seq<Seq<u8>> {
    if upto <= 1 {
        Seq::empty()
    } else if upto == 2 {
        spec_query_blocks(content, path, 1, entries, alloc_pat, fpat, reject_missing, quiet, tty)
    } else if upto == 3 {
        spec_query_blocks(content, path, 1, entries, alloc_pat, fpat, reject_missing, quiet, tty)
            + spec_query_blocks(
            content,
            path,
            2,
            entries,
            alloc_pat,
            fpat,
            reject_missing,
            quiet,
            tty,
        )
    } else {
        spec_scan_blocks(content, path, entries, alloc_pat, fpat, reject_missing, quiet, tty)
    }
}

/// However the surrounding pipeline schedules and interleaves files, the
/// blocks of one file are a function of its bytes, its path, the catalog and
/// the configuration alone: two successful scans of the same file under the
/// same configuration yield the same blocks, so the concurrency cap can only
/// change the order of emission, never the set.
pub proof fn lemma_scan_deterministic(
    blocks1: Seq<Seq<u8>>,
    blocks2: Seq<Seq<u8>>,
    content: Seq<u8>,
    path: Seq<u8>,
    entries: Seq<StructType>,
    alloc_pat: Seq<u8>,
    fpat: Option<Seq<u8>>,
    reject_missing: bool,
    quiet: bool,
    tty: bool,
)
    requires
        blocks1 == spec_scan_blocks(
            content,
            path,
            entries,
            alloc_pat,
            fpat,
            reject_missing,
            quiet,
            tty,
        ),
        blocks2 == spec_scan_blocks(
            content,
            path,
            entries,
            alloc_pat,
            fpat,
            reject_missing,
            quiet,
            tty,
        ),
    ensures
        blocks1 == blocks2,
{
}

/// The largest accepted concurrency cap.
pub const MAX_THREADS: usize = 1000;

/// Whether a requested concurrency cap is within the hard ceiling.
pub fn thread_count_allowed(n: usize) -> (r: bool)
    ensures
        r == (n <= 1000),
{
    n <= MAX_THREADS
}

} // verus!
