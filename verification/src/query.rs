//! The structural query: its construction for each allocator-call arity,
//! the trusted boundary to the tree-sitter parser and query engine, and the
//! verified interpretation of raw query matches into allocation-site spans.
//!
//! The query asks for a function definition whose body declares a local
//! pointer of some struct type and later assigns that same identifier from a
//! call to a function whose name matches the allocator pattern; the declared
//! and assigned names are joined by the query's own predicate and re-checked
//! here.

use vstd::prelude::*;

use vstd::string::StrSliceExecFns;
use vstd::string::StringSliceAdditionalSpecFns;

use crate::bytes::{append_bytes, bytes_eq};

verus! {

/// The tree-sitter syntax tree, opaque to the verifier.
#[verifier::external_type_specification]
#[verifier::external_body]
pub struct ExTree(tree_sitter::Tree);

/// The compiled tree-sitter query, opaque to the verifier.
#[verifier::external_type_specification]
#[verifier::external_body]
pub struct ExQuery(tree_sitter::Query);

/// The text a tree-sitter `Tree` was parsed from.
pub uninterp spec fn tree_content(t: tree_sitter::Tree) -> Seq<u8>;

/// Whether the C parser produces a tree for these bytes (with the grammar
/// fixed, a function of the bytes alone).
pub uninterp spec fn c_parses(content: Seq<u8>) -> bool;

/// Whether the query engine accepts this query source under the C grammar.
pub uninterp spec fn ts_query_ok(src: Seq<u8>) -> bool;

/// The source a tree-sitter `Query` was compiled from.
pub uninterp spec fn query_source(q: tree_sitter::Query) -> Seq<u8>;

/// The capture names of the query compiled from `src`, in capture-index
/// order.
pub uninterp spec fn ts_capture_names(src: Seq<u8>) -> Seq<Seq<u8>>;

/// The matches of the query compiled from `src` against the text `content`:
/// for each match, its captures as (capture index, start byte, end byte).
pub uninterp spec fn ts_query_matches(src: Seq<u8>, content: Seq<u8>) -> Seq<
    Seq<(usize, usize, usize)>,
>;

/// Relies on tree_sitter::Parser with the C grammar of tree_sitter_c: the
/// parse is deterministic in the bytes (no timeout or cancellation is set),
/// succeeding exactly on the inputs the parser accepts, and the returned
/// syntax tree is of exactly that text.
#[verifier::external_body]
pub(crate) fn parse_c(content: &Vec<u8>) -> (r: Option<tree_sitter::Tree>)
    ensures
        r is Some <==> c_parses(content@),
        r matches Some(t) ==> tree_content(t) == content@,
{
    let mut parser = tree_sitter::Parser::new();
    parser.set_language(tree_sitter_c::language()).ok()?;
    parser.parse(content, None)
}

/// Relies on tree_sitter::Query::new with the C grammar: it accepts exactly
/// the valid query sources (rejection is an error, never a panic), and the
/// compiled query carries its source.
#[verifier::external_body]
pub(crate) fn compile_query(src: &Vec<u8>) -> (r: Option<tree_sitter::Query>)
    ensures
        r is Some <==> ts_query_ok(src@),
        r matches Some(q) ==> query_source(q) == src@,
{
    let s = core::str::from_utf8(src).ok()?;
    tree_sitter::Query::new(tree_sitter_c::language(), s).ok()
}

/// Relies on tree_sitter::Query::capture_names: the query's capture names in
/// capture-index order, a function of the query source alone.
#[verifier::external_body]
pub(crate) fn query_capture_names(q: &tree_sitter::Query) -> (r: Vec<Vec<u8>>)
    ensures
        r@.map_values(|v: Vec<u8>| v@) == ts_capture_names(query_source(*q)),
{
    q.capture_names().iter().map(|s| s.as_bytes().to_vec()).collect()
}

/// Relies on tree_sitter::QueryCursor::matches on the tree's root node: every
/// match of the query in the tree, each capture as (capture index, start
/// byte, end byte); the query's text predicates are applied by the crate. A
/// function of the query source and the parsed text alone.
#[verifier::external_body]
pub(crate) fn run_query(
    q: &tree_sitter::Query,
    tree: &tree_sitter::Tree,
    content: &Vec<u8>,
) -> (r: Vec<Vec<(usize, usize, usize)>>)
    requires
        tree_content(*tree) == content@,
    ensures
        r@.map_values(|m: Vec<(usize, usize, usize)>| m@) == ts_query_matches(
            query_source(*q),
            content@,
        ),
{
    let mut cursor = tree_sitter::QueryCursor::new();
    cursor
        .matches(q, tree.root_node(), content.as_slice())
        .map(|m| m.captures
            .iter()
            .map(|c| (c.index as usize, c.node.start_byte(), c.node.end_byte()))
            .collect())
        .collect()
}

/// The query source for one allocator-call arity and allocator-name pattern.
pub open spec fn spec_alloc_query(arity: int, alloc_pat: Seq<u8>) -> Seq<u8> {
    query_part_one() + alloc_pat + query_part_two() + (if arity == 1 {
        args_arity_one()
    } else if arity == 2 {
        args_arity_two()
    } else {
        args_arity_three()
    }) + query_part_three()
}

/// The capture name `fn.def` as bytes.
pub open spec fn cap_fn_def() -> Seq<u8> {
    seq![102u8, 110u8, 46u8, 100u8, 101u8, 102u8]
}

/// The capture name `struct.name` as bytes.
pub open spec fn cap_struct_name() -> Seq<u8> {
    seq![115u8, 116u8, 114u8, 117u8, 99u8, 116u8, 46u8, 110u8, 97u8, 109u8, 101u8]
}

/// The capture name `decl.name` as bytes.
pub open spec fn cap_decl_name() -> Seq<u8> {
    seq![100u8, 101u8, 99u8, 108u8, 46u8, 110u8, 97u8, 109u8, 101u8]
}

/// The capture name `assign.name` as bytes.
pub open spec fn cap_assign_name() -> Seq<u8> {
    seq![97u8, 115u8, 115u8, 105u8, 103u8, 110u8, 46u8, 110u8, 97u8, 109u8, 101u8]
}

/// The capture name `callee.name` as bytes.
pub open spec fn cap_callee_name() -> Seq<u8> {
    seq![99u8, 97u8, 108u8, 108u8, 101u8, 101u8, 46u8, 110u8, 97u8, 109u8, 101u8]
}

/// The capture name `flags.arg` as bytes.
pub open spec fn cap_flags_arg() -> Seq<u8> {
    seq![102u8, 108u8, 97u8, 103u8, 115u8, 46u8, 97u8, 114u8, 103u8]
}


/// First part of the query source, up to the allocator-name pattern.
pub open spec fn query_part_one() -> Seq<u8> {
    ("(\n    function_definition\n    declarator: (_) @fn.decl\n    body: (\n        compound_statement (\n            declaration type: (\n                struct_specifier name: (\n                    type_identifier\n                ) @struct.name\n            ) declarator: (\n                pointer_declarator declarator: (\n                    identifier\n                ) @decl.name\n            )\n        )\n        (expression_statement (\n            assignment_expression\n                left: (identifier) @assign.name\n                right: (\n                    (call_expression\n                        function: (identifier) @callee.name\n                        (#match? @callee.name \"").spec_bytes()
}

/// Second part of the query source, between the pattern and the arguments.
pub open spec fn query_part_two() -> Seq<u8> {
    ("\")\n                        arguments: ").spec_bytes()
}

/// Argument-list pattern for a one-argument allocator call (no flags).
pub open spec fn args_arity_one() -> Seq<u8> {
    ("(argument_list . (_) .)").spec_bytes()
}

/// Argument-list pattern for a two-argument allocator call, flags last.
pub open spec fn args_arity_two() -> Seq<u8> {
    ("(argument_list . (_) . (_) @flags.arg .)").spec_bytes()
}

/// Argument-list pattern for a three-argument allocator call, flags last.
pub open spec fn args_arity_three() -> Seq<u8> {
    ("(argument_list . (_) . (_) . (_) @flags.arg .)").spec_bytes()
}

/// Final part of the query source.
pub open spec fn query_part_three() -> Seq<u8> {
    ("\n                    ) @call.expr\n                )\n            )\n        )\n        (#eq? @decl.name @assign.name)\n    )\n) @fn.def").spec_bytes()
}

/// Build the query source for the given arity (1, 2 or 3) and allocator-name
/// pattern.
pub fn build_query(arity: usize, alloc_pat: &Vec<u8>) -> (r: Vec<u8>)
    requires
        1 <= arity <= 3,
    ensures
        r@ == spec_alloc_query(arity as int, alloc_pat@),
{
    let mut out: Vec<u8> = ("(\n    function_definition\n    declarator: (_) @fn.decl\n    body: (\n        compound_statement (\n            declaration type: (\n                struct_specifier name: (\n                    type_identifier\n                ) @struct.name\n            ) declarator: (\n                pointer_declarator declarator: (\n                    identifier\n                ) @decl.name\n            )\n        )\n        (expression_statement (\n            assignment_expression\n                left: (identifier) @assign.name\n                right: (\n                    (call_expression\n                        function: (identifier) @callee.name\n                        (#match? @callee.name \"").as_bytes_vec();
    assert(out@ == query_part_one());
    append_bytes(&mut out, alloc_pat);
    let part2 = ("\")\n                        arguments: ").as_bytes_vec();
    assert(part2@ == query_part_two());
    append_bytes(&mut out, &part2);
    let args = if arity == 1 {
        ("(argument_list . (_) .)").as_bytes_vec()
    } else if arity == 2 {
        ("(argument_list . (_) . (_) @flags.arg .)").as_bytes_vec()
    } else {
        ("(argument_list . (_) . (_) . (_) @flags.arg .)").as_bytes_vec()
    };
    append_bytes(&mut out, &args);
    let part3 = ("\n                    ) @call.expr\n                )\n            )\n        )\n        (#eq? @decl.name @assign.name)\n    )\n) @fn.def").as_bytes_vec();
    assert(part3@ == query_part_three());
    append_bytes(&mut out, &part3);
    out
}

/// The capture name `fn.def` as a byte vector.
pub fn cap_fn_def_vec() -> (r: Vec<u8>)
    ensures
        r@ == cap_fn_def(),
{
    let mut out: Vec<u8> = Vec::new();
    out.push(102);
    out.push(110);
    out.push(46);
    out.push(100);
    out.push(101);
    out.push(102);
    assert(out@ =~= cap_fn_def());
    out
}

/// The capture name `struct.name` as a byte vector.
pub fn cap_struct_name_vec() -> (r: Vec<u8>)
    ensures
        r@ == cap_struct_name(),
{
    let mut out: Vec<u8> = Vec::new();
    out.push(115);
    out.push(116);
    out.push(114);
    out.push(117);
    out.push(99);
    out.push(116);
    out.push(46);
    out.push(110);
    out.push(97);
    out.push(109);
    out.push(101);
    assert(out@ =~= cap_struct_name());
    out
}

/// The capture name `decl.name` as a byte vector.
pub fn cap_decl_name_vec() -> (r: Vec<u8>)
    ensures
        r@ == cap_decl_name(),
{
    let mut out: Vec<u8> = Vec::new();
    out.push(100);
    out.push(101);
    out.push(99);
    out.push(108);
    out.push(46);
    out.push(110);
    out.push(97);
    out.push(109);
    out.push(101);
    assert(out@ =~= cap_decl_name());
    out
}

/// The capture name `assign.name` as a byte vector.
pub fn cap_assign_name_vec() -> (r: Vec<u8>)
    ensures
        r@ == cap_assign_name(),
{
    let mut out: Vec<u8> = Vec::new();
    out.push(97);
    out.push(115);
    out.push(115);
    out.push(105);
    out.push(103);
    out.push(110);
    out.push(46);
    out.push(110);
    out.push(97);
    out.push(109);
    out.push(101);
    assert(out@ =~= cap_assign_name());
    out
}

/// The capture name `callee.name` as a byte vector.
pub fn cap_callee_name_vec() -> (r: Vec<u8>)
    ensures
        r@ == cap_callee_name(),
{
    let mut out: Vec<u8> = Vec::new();
    out.push(99);
    out.push(97);
    out.push(108);
    out.push(108);
    out.push(101);
    out.push(101);
    out.push(46);
    out.push(110);
    out.push(97);
    out.push(109);
    out.push(101);
    assert(out@ =~= cap_callee_name());
    out
}

/// The capture name `flags.arg` as a byte vector.
pub fn cap_flags_arg_vec() -> (r: Vec<u8>)
    ensures
        r@ == cap_flags_arg(),
{
    let mut out: Vec<u8> = Vec::new();
    out.push(102);
    out.push(108);
    out.push(97);
    out.push(103);
    out.push(115);
    out.push(46);
    out.push(97);
    out.push(114);
    out.push(103);
    assert(out@ =~= cap_flags_arg());
    out
}


/// First index of `want` in `names` from position `i` on.
pub open spec fn spec_find_name(names: Seq<Seq<u8>>, want: Seq<u8>, i: int) -> Option<int>
    decreases names.len() - i,
{
    if i < 0 || i >= names.len() {
        Option::None
    } else if names[i] == want {
        Option::Some(i)
    } else {
        spec_find_name(names, want, i + 1)
    }
}

/// Find the capture index of name `want`.
pub fn find_capture_index(names: &Vec<Vec<u8>>, want: &Vec<u8>) -> (r: Option<usize>)
    ensures
        match r {
            Some(u) => spec_find_name(names@.map_values(|v: Vec<u8>| v@), want@, 0)
                == Option::Some(u as int),
            None => spec_find_name(names@.map_values(|v: Vec<u8>| v@), want@, 0) is None,
        },
{
    let ghost s = names@.map_values(|v: Vec<u8>| v@);
    let n = names.len();
    let mut i: usize = 0;
    while i < n
        invariant
            s == names@.map_values(|v: Vec<u8>| v@),
            n == names@.len(),
            i <= n,
            spec_find_name(s, want@, 0) == spec_find_name(s, want@, i as int),
        decreases n - i,
    {
        assert(s[i as int] == names@[i as int]@);
        if bytes_eq(&names[i], want) {
            return Some(i);
        }
        i += 1;
    }
    None
}

/// First capture with index `idx` in the match, from position `i` on, as its
/// byte range.
pub open spec fn spec_capture_range(m: Seq<(usize, usize, usize)>, idx: int, i: int) -> Option<
    (usize, usize),
>
    decreases m.len() - i,
{
    if i < 0 || i >= m.len() {
        Option::None
    } else if m[i].0 == idx {
        Option::Some((m[i].1, m[i].2))
    } else {
        spec_capture_range(m, idx, i + 1)
    }
}

/// Find the byte range of the capture with index `idx` in one match.
pub fn find_capture_range(m: &Vec<(usize, usize, usize)>, idx: usize) -> (r: Option<
    (usize, usize),
>)
    ensures
        r == spec_capture_range(m@, idx as int, 0),
{
    let n = m.len();
    let mut i: usize = 0;
    while i < n
        invariant
            n == m@.len(),
            i <= n,
            spec_capture_range(m@, idx as int, 0) == spec_capture_range(m@, idx as int, i as int),
        decreases n - i,
    {
        if m[i].0 == idx {
            return Some((m[i].1, m[i].2));
        }
        i += 1;
    }
    None
}


/// The captured spans of one interpreted match.
pub struct MatchSpans {
    pub func: (usize, usize),
    pub struct_name: (usize, usize),
    pub decl_name: (usize, usize),
    pub assign_name: (usize, usize),
    pub callee: (usize, usize),
    pub flags: Option<(usize, usize)>,
}

/// `r` is an ordered range nested within `outer`.
pub open spec fn range_within(r: (usize, usize), outer: (usize, usize)) -> bool {
    outer.0 <= r.0 && r.0 <= r.1 && r.1 <= outer.1
}

/// Well-formed spans: a nonempty function range within the text, every other
/// range nested in it, a nonempty struct name.
pub open spec fn spans_wf(sp: MatchSpans, clen: int) -> bool {
    &&& sp.func.0 < sp.func.1 <= clen
    &&& range_within(sp.struct_name, sp.func)
    &&& sp.struct_name.0 < sp.struct_name.1
    &&& range_within(sp.decl_name, sp.func)
    &&& range_within(sp.assign_name, sp.func)
    &&& range_within(sp.callee, sp.func)
    &&& match sp.flags {
        Option::Some(f) => range_within(f, sp.func),
        Option::None => true,
    }
}

/// Interpret one raw query match: resolve each capture role by name, read its
/// range, and keep the result only when the spans are well formed. The flags
/// capture is optional (absent for the one-argument query shape).
pub open spec fn spec_interpret(
    m: Seq<(usize, usize, usize)>,
    names: Seq<Seq<u8>>,
    clen: int,
) -> Option<MatchSpans> {
    let fd = spec_find_name(names, cap_fn_def(), 0);
    let sn = spec_find_name(names, cap_struct_name(), 0);
    let dn = spec_find_name(names, cap_decl_name(), 0);
    let an = spec_find_name(names, cap_assign_name(), 0);
    let ce = spec_find_name(names, cap_callee_name(), 0);
    if fd is None || sn is None || dn is None || an is None || ce is None {
        Option::None
    } else {
        let fr = spec_capture_range(m, fd.unwrap(), 0);
        let sr = spec_capture_range(m, sn.unwrap(), 0);
        let dr = spec_capture_range(m, dn.unwrap(), 0);
        let ar = spec_capture_range(m, an.unwrap(), 0);
        let cr = spec_capture_range(m, ce.unwrap(), 0);
        if fr is None || sr is None || dr is None || ar is None || cr is None {
            Option::None
        } else {
            let flags = match spec_find_name(names, cap_flags_arg(), 0) {
                Option::Some(fi) => spec_capture_range(m, fi, 0),
                Option::None => Option::None,
            };
            let sp = MatchSpans {
                func: fr.unwrap(),
                struct_name: sr.unwrap(),
                decl_name: dr.unwrap(),
                assign_name: ar.unwrap(),
                callee: cr.unwrap(),
                flags,
            };
            if spans_wf(sp, clen) {
                Option::Some(sp)
            } else {
                Option::None
            }
        }
    }
}

/// Whether the spans are well formed, at run time.
fn spans_wf_check(sp: &MatchSpans, clen: usize) -> (r: bool)
    ensures
        r == spans_wf(*sp, clen as int),
{
    sp.func.0 < sp.func.1 && sp.func.1 <= clen && sp.func.0 <= sp.struct_name.0
        && sp.struct_name.0 < sp.struct_name.1 && sp.struct_name.1 <= sp.func.1
        && sp.func.0 <= sp.decl_name.0 && sp.decl_name.0 <= sp.decl_name.1 && sp.decl_name.1
        <= sp.func.1 && sp.func.0 <= sp.assign_name.0 && sp.assign_name.0 <= sp.assign_name.1
        && sp.assign_name.1 <= sp.func.1 && sp.func.0 <= sp.callee.0 && sp.callee.0 <= sp.callee.1
        && sp.callee.1 <= sp.func.1 && (match sp.flags {
        Option::Some(f) => sp.func.0 <= f.0 && f.0 <= f.1 && f.1 <= sp.func.1,
        Option::None => true,
    })
}

/// Interpret one raw query match into its spans, if well formed.
pub fn interpret_match(
    m: &Vec<(usize, usize, usize)>,
    names: &Vec<Vec<u8>>,
    clen: usize,
) -> (r: Option<MatchSpans>)
    ensures
        r == spec_interpret(m@, names@.map_values(|v: Vec<u8>| v@), clen as int),
{
    let fd_name = cap_fn_def_vec();
    let sn_name = cap_struct_name_vec();
    let dn_name = cap_decl_name_vec();
    let an_name = cap_assign_name_vec();
    let ce_name = cap_callee_name_vec();
    let fl_name = cap_flags_arg_vec();
    let fd = find_capture_index(names, &fd_name);
    let sn = find_capture_index(names, &sn_name);
    let dn = find_capture_index(names, &dn_name);
    let an = find_capture_index(names, &an_name);
    let ce = find_capture_index(names, &ce_name);
    match (fd, sn, dn, an, ce) {
        (Some(fdi), Some(sni), Some(dni), Some(ani), Some(cei)) => {
            let fr = find_capture_range(m, fdi);
            let sr = find_capture_range(m, sni);
            let dr = find_capture_range(m, dni);
            let ar = find_capture_range(m, ani);
            let cr = find_capture_range(m, cei);
            match (fr, sr, dr, ar, cr) {
                (Some(f), Some(s), Some(d), Some(a), Some(c)) => {
                    let flags = match find_capture_index(names, &fl_name) {
                        Some(fi) => find_capture_range(m, fi),
                        None => None,
                    };
                    let sp = MatchSpans {
                        func: f,
                        struct_name: s,
                        decl_name: d,
                        assign_name: a,
                        callee: c,
                        flags,
                    };
                    if spans_wf_check(&sp, clen) {
                        Some(sp)
                    } else {
                        None
                    }
                },
                _ => None,
            }
        },
        _ => None,
    }
}

} // verus!
