//! Rules: identity, metadata and a query, built with a fluent builder.
use vstd::prelude::*;
use crate::analysis::{Finding, Severity};
use crate::ast::{FnItem, SourceFile, Span, StructItem};
use crate::filters::{derives_accounts, fn_uses_unsafe};
use crate::scan::block_calls;
use crate::query::{
    AstNode, AstQuery, FnTest, StructTest, fn_node_holds, has_name, is_public_fn, lemma_select_mask_prefix,
    node_calls, fn_nodes_match, fn_test_holds, fns_in_items,
    fns_of_nodes, is_fn_node, is_struct_node, node_uses_unsafe, select, span_finding, struct_node_holds,
    struct_nodes_match, struct_test_holds, structs_in_items, structs_of_nodes,
};
use crate::span_utils::{SpanExtractor, location_of, snippet_of};
use crate::text::string_from;
use crate::engine::{CatalogueEntry, RuleEngine, accepts, builtin_catalogue, is_entry};

pub mod anchor_instructions;
pub mod division_by_zero;
pub mod duplicate_mutable_accounts;
pub mod missing_error_handling;
pub mod missing_signer_check;
pub mod owner_check;
pub mod unsafe_code;

verus! {

/// The family a rule belongs to.
#[derive(Clone, Copy, Debug, PartialEq, Eq, Hash, Structural)]
pub enum RuleType {
    Solana,
    Anchor,
    General,
}

/// Where a query pipeline starts: every function of the file (free, in
/// implementation blocks and in inline modules), or its top-level structs.
#[derive(Clone, Copy, Debug, PartialEq, Eq, Structural)]
pub enum Source {
    Functions,
    Structs,
}

/// A narrowing stage of a query pipeline, as the query operators of the
/// same names.
pub enum Stage {
    WithName(String),
    PublicFunctions,
    UsesUnsafe,
    CallsTo(String),
    StructsWhere(StructTest),
    FunctionsWhere(FnTest),
}

/// What a rule looks for.
pub enum RuleQuery {
    /// The functions declared `unsafe` or holding an `unsafe` block.
    UnsafeCode,
    /// The functions that satisfy a function heuristic.
    Functions(FnTest),
    /// The structs deriving `Accounts` that satisfy a struct heuristic.
    AccountsStructs(StructTest),
    /// A source narrowed by each stage in turn.
    Pipeline(Source, Vec<Stage>),
    /// What either query reports: the first's targets, then the second's,
    /// duplicates kept.
    Or(Box<RuleQuery>, Box<RuleQuery>),
}

/// A function passes a stage.
pub open spec fn fn_passes(st: Stage, f: FnItem) -> bool {
    match st {
        Stage::WithName(n) => f.name@ == n@,
        Stage::PublicFunctions => f.is_pub,
        Stage::UsesUnsafe => fn_uses_unsafe(f),
        Stage::CallsTo(n) => block_calls(f.body, n@),
        Stage::StructsWhere(_) => false,
        Stage::FunctionsWhere(t) => fn_test_holds(f, t),
    }
}

/// A struct passes a stage; stages about functions drop structs.
pub open spec fn struct_passes(st: Stage, s: StructItem) -> bool {
    match st {
        Stage::WithName(n) => s.name@ == n@,
        Stage::StructsWhere(t) => struct_test_holds(s, t),
        _ => false,
    }
}

pub open spec fn fn_passes_all(stages: Seq<Stage>, f: FnItem) -> bool {
    forall|k: int| 0 <= k < stages.len() ==> #[trigger] fn_passes(stages[k], f)
}

pub open spec fn struct_passes_all(stages: Seq<Stage>, s: StructItem) -> bool {
    forall|k: int| 0 <= k < stages.len() ==> #[trigger] struct_passes(stages[k], s)
}

/// A node passes a stage, as the stage's query operator decides.
pub open spec fn node_passes<'a>(st: Stage, n: AstNode<'a>) -> bool {
    match st {
        Stage::WithName(s) => has_name(n, s@),
        Stage::PublicFunctions => is_public_fn(n),
        Stage::UsesUnsafe => node_uses_unsafe(n),
        Stage::CallsTo(s) => node_calls(n, s@),
        Stage::StructsWhere(t) => struct_node_holds(n, t),
        Stage::FunctionsWhere(t) => fn_node_holds(n, t),
    }
}

/// The name and span of each function or struct that a query reports on a
/// file, in discovery order.
pub open spec fn query_targets(q: RuleQuery, file: SourceFile) -> Seq<(Seq<char>, Span)>
    decreases q,
{
    let fs = fns_in_items(file.items@);
    let ss = structs_in_items(file.items@);
    match q {
        RuleQuery::UnsafeCode => fn_targets(select(fs, fs.map_values(|p: (FnItem, bool)| fn_uses_unsafe(p.0)))),
        RuleQuery::Functions(t) => fn_targets(select(fs, fs.map_values(|p: (FnItem, bool)| fn_test_holds(p.0, t)))),
        RuleQuery::AccountsStructs(t) => {
            let acc = select(ss, ss.map_values(|s: StructItem| derives_accounts(s)));
            struct_targets(select(acc, acc.map_values(|s: StructItem| struct_test_holds(s, t))))
        },
        RuleQuery::Pipeline(Source::Functions, stages) => fn_targets(
            select(fs, fs.map_values(|p: (FnItem, bool)| fn_passes_all(stages@, p.0))),
        ),
        RuleQuery::Pipeline(Source::Structs, stages) => struct_targets(
            select(ss, ss.map_values(|s: StructItem| struct_passes_all(stages@, s))),
        ),
        RuleQuery::Or(a, b) => query_targets(*a, file) + query_targets(*b, file),
    }
}

/// Selecting by `p` and then by `q` selects by both.
pub proof fn lemma_select_select<T>(s: Seq<T>, p: spec_fn(T) -> bool, q: spec_fn(T) -> bool, pq: spec_fn(T) -> bool)
    requires
        forall|x: T| #[trigger] pq(x) == (p(x) && q(x)),
    ensures
        select(select(s, s.map_values(p)), select(s, s.map_values(p)).map_values(q)) == select(s, s.map_values(pq)),
    decreases s.len(),
{
    if s.len() > 0 {
        let d = s.drop_last();
        let x = s.last();
        lemma_select_select(d, p, q, pq);
        lemma_select_mask_prefix(d, s.map_values(p), d.map_values(p));
        lemma_select_mask_prefix(d, s.map_values(pq), d.map_values(pq));
        let a = select(s, s.map_values(p));
        let ad = select(d, d.map_values(p));
        if p(x) {
            assert(a == ad.push(x));
            assert(a.drop_last() =~= ad);
            lemma_select_mask_prefix(ad, a.map_values(q), ad.map_values(q));
        } else {
            assert(a == ad);
        }
    }
}

/// Applies a stage with its query operator.
fn apply_stage<'a>(q: AstQuery<'a>, st: &Stage) -> (r: AstQuery<'a>)
    ensures
        r@ == select(q@, q@.map_values(|n: AstNode<'a>| node_passes(*st, n))),
{
    let ghost s = q@;
    let r = match st {
        Stage::WithName(name) => q.with_name(name.as_str()),
        Stage::PublicFunctions => q.public_functions(),
        Stage::UsesUnsafe => q.uses_unsafe(),
        Stage::CallsTo(name) => q.calls_to(name.as_str()),
        Stage::StructsWhere(t) => q.structs_where(*t),
        Stage::FunctionsWhere(t) => q.functions_where(*t),
    };
    assert(r@ == select(s, s.map_values(|n: AstNode<'a>| node_passes(*st, n)))) by {
        match st {
            Stage::WithName(name) => {
                assert(s.map_values(|n: AstNode<'a>| has_name(n, name@)) =~= s.map_values(|n: AstNode<'a>| node_passes(*st, n)));
            },
            Stage::PublicFunctions => {
                assert(s.map_values(|n: AstNode<'a>| is_public_fn(n)) =~= s.map_values(|n: AstNode<'a>| node_passes(*st, n)));
            },
            Stage::UsesUnsafe => {
                assert(s.map_values(|n: AstNode<'a>| node_uses_unsafe(n)) =~= s.map_values(|n: AstNode<'a>| node_passes(*st, n)));
            },
            Stage::CallsTo(name) => {
                assert(s.map_values(|n: AstNode<'a>| node_calls(n, name@)) =~= s.map_values(|n: AstNode<'a>| node_passes(*st, n)));
            },
            Stage::StructsWhere(t) => {
                assert(s.map_values(|n: AstNode<'a>| struct_node_holds(n, *t)) =~= s.map_values(|n: AstNode<'a>| node_passes(*st, n)));
            },
            Stage::FunctionsWhere(t) => {
                assert(s.map_values(|n: AstNode<'a>| fn_node_holds(n, *t)) =~= s.map_values(|n: AstNode<'a>| node_passes(*st, n)));
            },
        }
    }
    r
}

/// Runs the stages of a pipeline over the functions of a file.
fn run_fn_pipeline<'a>(q: AstQuery<'a>, stages: &Vec<Stage>, Ghost(fs): Ghost<Seq<(FnItem, bool)>>) -> (r: AstQuery<'a>)
    requires
        fn_nodes_match(q@, fs),
    ensures
        fn_nodes_match(r@, select(fs, fs.map_values(|p: (FnItem, bool)| fn_passes_all(stages@, p.0)))),
{
    let mut q = q;
    let mut i: usize = 0;
    proof {
        assert(select(fs, fs.map_values(|p: (FnItem, bool)| fn_passes_all(stages@.take(0), p.0))) == fs) by {
            lemma_select_all(fs, fs.map_values(|p: (FnItem, bool)| fn_passes_all(stages@.take(0), p.0)));
        }
    }
    while i < stages.len()
        invariant
            i <= stages@.len(),
            fn_nodes_match(q@, select(fs, fs.map_values(|p: (FnItem, bool)| fn_passes_all(stages@.take(i as int), p.0)))),
        decreases stages@.len() - i,
    {
        let st = &stages[i];
        let ghost cur = select(fs, fs.map_values(|p: (FnItem, bool)| fn_passes_all(stages@.take(i as int), p.0)));
        let ghost before = q@;
        q = apply_stage(q, st);
        proof {
            let m1 = before.map_values(|n: AstNode<'a>| node_passes(*st, n));
            let m2 = cur.map_values(|p: (FnItem, bool)| fn_passes(*st, p.0));
            assert forall|k: int| 0 <= k < before.len() implies m1[k] == m2[k] by {
                assert(is_fn_node(before[k], cur[k].0, cur[k].1));
            }
            lemma_select_fn_match(before, cur, m1, m2);
            let p = |p: (FnItem, bool)| fn_passes_all(stages@.take(i as int), p.0);
            let qq = |p: (FnItem, bool)| fn_passes(*st, p.0);
            let pq = |p: (FnItem, bool)| fn_passes_all(stages@.take(i + 1), p.0);
            assert forall|x: (FnItem, bool)| #[trigger] pq(x) == (p(x) && qq(x)) by {
                let t1 = stages@.take(i + 1);
                let t0 = stages@.take(i as int);
                if p(x) && qq(x) {
                    assert forall|k: int| 0 <= k < t1.len() implies #[trigger] fn_passes(t1[k], x.0) by {
                        if k < i {
                            assert(t1[k] == t0[k]);
                        }
                    }
                }
                if pq(x) {
                    assert(fn_passes(t1[i as int], x.0));
                    assert forall|k: int| 0 <= k < t0.len() implies #[trigger] fn_passes(t0[k], x.0) by {
                        assert(t1[k] == t0[k]);
                    }
                }
            }
            lemma_select_select(fs, p, qq, pq);
            assert(fs.map_values(p) =~= fs.map_values(|p: (FnItem, bool)| fn_passes_all(stages@.take(i as int), p.0)));
            assert(fs.map_values(pq) =~= fs.map_values(|p: (FnItem, bool)| fn_passes_all(stages@.take(i + 1), p.0)));
            assert(cur.map_values(qq) =~= m2);
        }
        i += 1;
    }
    assert(stages@.take(i as int) =~= stages@);
    q
}

/// Runs the stages of a pipeline over the structs of a file.
fn run_struct_pipeline<'a>(q: AstQuery<'a>, stages: &Vec<Stage>, Ghost(ss): Ghost<Seq<StructItem>>) -> (r: AstQuery<'a>)
    requires
        struct_nodes_match(q@, ss),
    ensures
        struct_nodes_match(r@, select(ss, ss.map_values(|s: StructItem| struct_passes_all(stages@, s)))),
{
    let mut q = q;
    let mut i: usize = 0;
    proof {
        assert(select(ss, ss.map_values(|s: StructItem| struct_passes_all(stages@.take(0), s))) == ss) by {
            lemma_select_all(ss, ss.map_values(|s: StructItem| struct_passes_all(stages@.take(0), s)));
        }
    }
    while i < stages.len()
        invariant
            i <= stages@.len(),
            struct_nodes_match(q@, select(ss, ss.map_values(|s: StructItem| struct_passes_all(stages@.take(i as int), s)))),
        decreases stages@.len() - i,
    {
        let st = &stages[i];
        let ghost cur = select(ss, ss.map_values(|s: StructItem| struct_passes_all(stages@.take(i as int), s)));
        let ghost before = q@;
        q = apply_stage(q, st);
        proof {
            let m1 = before.map_values(|n: AstNode<'a>| node_passes(*st, n));
            let m2 = cur.map_values(|s: StructItem| struct_passes(*st, s));
            assert forall|k: int| 0 <= k < before.len() implies m1[k] == m2[k] by {
                assert(is_struct_node(before[k], cur[k]));
            }
            lemma_select_struct_match(before, cur, m1, m2);
            let p = |s: StructItem| struct_passes_all(stages@.take(i as int), s);
            let qq = |s: StructItem| struct_passes(*st, s);
            let pq = |s: StructItem| struct_passes_all(stages@.take(i + 1), s);
            assert forall|x: StructItem| #[trigger] pq(x) == (p(x) && qq(x)) by {
                let t1 = stages@.take(i + 1);
                let t0 = stages@.take(i as int);
                if p(x) && qq(x) {
                    assert forall|k: int| 0 <= k < t1.len() implies #[trigger] struct_passes(t1[k], x) by {
                        if k < i {
                            assert(t1[k] == t0[k]);
                        }
                    }
                }
                if pq(x) {
                    assert(struct_passes(t1[i as int], x));
                    assert forall|k: int| 0 <= k < t0.len() implies #[trigger] struct_passes(t0[k], x) by {
                        assert(t1[k] == t0[k]);
                    }
                }
            }
            lemma_select_select(ss, p, qq, pq);
            assert(ss.map_values(p) =~= ss.map_values(|s: StructItem| struct_passes_all(stages@.take(i as int), s)));
            assert(ss.map_values(pq) =~= ss.map_values(|s: StructItem| struct_passes_all(stages@.take(i + 1), s)));
            assert(cur.map_values(qq) =~= m2);
        }
        i += 1;
    }
    assert(stages@.take(i as int) =~= stages@);
    q
}

/// Selecting with every mark set keeps everything.
proof fn lemma_select_all<T>(s: Seq<T>, m: Seq<bool>)
    requires
        m.len() >= s.len(),
        forall|i: int| 0 <= i < s.len() ==> m[i],
    ensures
        select(s, m) == s,
    decreases s.len(),
{
    if s.len() > 0 {
        lemma_select_all(s.drop_last(), m);
        assert(s.drop_last().push(s.last()) =~= s);
    }
}

pub open spec fn fn_targets(fs: Seq<(FnItem, bool)>) -> Seq<(Seq<char>, Span)> {
    fs.map_values(|p: (FnItem, bool)| (p.0.name@, p.0.span))
}

pub open spec fn struct_targets(ss: Seq<StructItem>) -> Seq<(Seq<char>, Span)> {
    ss.map_values(|s: StructItem| (s.name@, s.span))
}

/// The finding reported on a named item: `title in 'name'. description`,
/// located by the item's span in `file`, whose lines are `lines`.
pub open spec fn target_finding(
    f: Finding,
    name: Seq<char>,
    span: Span,
    severity: Severity,
    title: Seq<char>,
    description: Seq<char>,
    file: Seq<char>,
    lines: Seq<Seq<char>>,
) -> bool {
    &&& f.description@ == title + " in '"@ + name + "'. "@ + description
    &&& f.severity == severity
    &&& location_of(file, span, f.location)
    &&& f.code_snippet matches Some(c) && c@ == snippet_of(lines, span)
}

proof fn lemma_select_fn_match<'a>(nodes: Seq<AstNode<'a>>, fns: Seq<(FnItem, bool)>, m1: Seq<bool>, m2: Seq<bool>)
    requires
        fn_nodes_match(nodes, fns),
        m1.len() >= nodes.len(),
        m2.len() >= fns.len(),
        forall|i: int| 0 <= i < nodes.len() ==> m1[i] == m2[i],
    ensures
        fn_nodes_match(select(nodes, m1), select(fns, m2)),
    decreases nodes.len(),
{
    if nodes.len() > 0 {
        assert(is_fn_node(nodes[nodes.len() - 1], fns[fns.len() - 1].0, fns[fns.len() - 1].1));
        lemma_select_fn_match(nodes.drop_last(), fns.drop_last(), m1, m2);
    }
}

proof fn lemma_select_struct_match<'a>(nodes: Seq<AstNode<'a>>, ss: Seq<StructItem>, m1: Seq<bool>, m2: Seq<bool>)
    requires
        struct_nodes_match(nodes, ss),
        m1.len() >= nodes.len(),
        m2.len() >= ss.len(),
        forall|i: int| 0 <= i < nodes.len() ==> m1[i] == m2[i],
    ensures
        struct_nodes_match(select(nodes, m1), select(ss, m2)),
    decreases nodes.len(),
{
    if nodes.len() > 0 {
        assert(is_struct_node(nodes[nodes.len() - 1], ss[ss.len() - 1]));
        lemma_select_struct_match(nodes.drop_last(), ss.drop_last(), m1, m2);
    }
}

/// Runs a query on a file: the nodes it reports, matched with its targets.
fn run_query<'a>(q: &RuleQuery, ast: &'a SourceFile) -> (r: AstQuery<'a>)
    ensures
        r@.len() == query_targets(*q, *ast).len(),
        forall|i: int|
            0 <= i < r@.len() ==> #[trigger] r@[i].name_view() == Some(query_targets(*q, *ast)[i].0) && crate::query::node_span(
                r@[i],
            ) == Some(query_targets(*q, *ast)[i].1),
    decreases q,
{
    let start = AstQuery::new(ast);
    let ghost s0 = start@;
    assert(s0.drop_last() =~= Seq::<AstNode<'a>>::empty());
    assert(s0.last().data == crate::query::NodeData::File(ast));
    assert(fns_of_nodes(s0.drop_last()) =~= Seq::<(FnItem, bool)>::empty());
    assert(structs_of_nodes(s0.drop_last()) =~= Seq::<StructItem>::empty());
    assert(fns_of_nodes(s0) =~= fns_in_items(ast.items@));
    assert(structs_of_nodes(s0) =~= structs_in_items(ast.items@));
    let ghost fs = fns_in_items(ast.items@);
    let ghost ss = structs_in_items(ast.items@);
    match q {
        RuleQuery::UnsafeCode => {
            let f = start.functions();
            let ghost n1 = f@;
            let r = f.uses_unsafe();
            proof {
                let m1 = n1.map_values(|n: AstNode<'a>| node_uses_unsafe(n));
                let m2 = fs.map_values(|p: (FnItem, bool)| fn_uses_unsafe(p.0));
                assert forall|i: int| 0 <= i < n1.len() implies m1[i] == m2[i] by {
                    assert(is_fn_node(n1[i], fs[i].0, fs[i].1));
                }
                lemma_select_fn_match(n1, fs, m1, m2);
                let sel = select(fs, m2);
                assert forall|i: int| 0 <= i < r@.len() implies #[trigger] r@[i].name_view() == Some(
                    query_targets(*q, *ast)[i].0,
                ) && crate::query::node_span(r@[i]) == Some(query_targets(*q, *ast)[i].1) by {
                    assert(is_fn_node(r@[i], sel[i].0, sel[i].1));
                }
            }
            r
        },
        RuleQuery::Functions(t) => {
            let t = *t;
            let f = start.functions();
            let ghost n1 = f@;
            let r = f.functions_where(t);
            proof {
                let m1 = n1.map_values(|n: AstNode<'a>| fn_node_holds(n, t));
                let m2 = fs.map_values(|p: (FnItem, bool)| fn_test_holds(p.0, t));
                assert forall|i: int| 0 <= i < n1.len() implies m1[i] == m2[i] by {
                    assert(is_fn_node(n1[i], fs[i].0, fs[i].1));
                }
                lemma_select_fn_match(n1, fs, m1, m2);
                let sel = select(fs, m2);
                assert forall|i: int| 0 <= i < r@.len() implies #[trigger] r@[i].name_view() == Some(
                    query_targets(*q, *ast)[i].0,
                ) && crate::query::node_span(r@[i]) == Some(query_targets(*q, *ast)[i].1) by {
                    assert(is_fn_node(r@[i], sel[i].0, sel[i].1));
                }
            }
            r
        },
        RuleQuery::AccountsStructs(t) => {
            let t = *t;
            let st = start.structs();
            let ghost n1 = st@;
            let a = st.derives_accounts();
            let ghost n2 = a@;
            let r = a.structs_where(t);
            proof {
                let m1 = n1.map_values(|n: AstNode<'a>| struct_node_holds(n, StructTest::DerivesAccounts));
                let m2 = ss.map_values(|s: StructItem| derives_accounts(s));
                assert forall|i: int| 0 <= i < n1.len() implies m1[i] == m2[i] by {
                    assert(is_struct_node(n1[i], ss[i]));
                }
                lemma_select_struct_match(n1, ss, m1, m2);
                let acc = select(ss, m2);
                let m3 = n2.map_values(|n: AstNode<'a>| struct_node_holds(n, t));
                let m4 = acc.map_values(|s: StructItem| struct_test_holds(s, t));
                assert forall|i: int| 0 <= i < n2.len() implies m3[i] == m4[i] by {
                    assert(is_struct_node(n2[i], acc[i]));
                }
                lemma_select_struct_match(n2, acc, m3, m4);
                let sel = select(acc, m4);
                assert forall|i: int| 0 <= i < r@.len() implies #[trigger] r@[i].name_view() == Some(
                    query_targets(*q, *ast)[i].0,
                ) && crate::query::node_span(r@[i]) == Some(query_targets(*q, *ast)[i].1) by {
                    assert(is_struct_node(r@[i], sel[i]));
                }
            }
            r
        },
        RuleQuery::Pipeline(Source::Functions, stages) => {
            let f = start.functions();
            let r = run_fn_pipeline(f, stages, Ghost(fs));
            proof {
                let sel = select(fs, fs.map_values(|p: (FnItem, bool)| fn_passes_all(stages@, p.0)));
                assert forall|i: int| 0 <= i < r@.len() implies #[trigger] r@[i].name_view() == Some(
                    query_targets(*q, *ast)[i].0,
                ) && crate::query::node_span(r@[i]) == Some(query_targets(*q, *ast)[i].1) by {
                    assert(is_fn_node(r@[i], sel[i].0, sel[i].1));
                }
            }
            r
        },
        RuleQuery::Pipeline(Source::Structs, stages) => {
            let st = start.structs();
            let r = run_struct_pipeline(st, stages, Ghost(ss));
            proof {
                let sel = select(ss, ss.map_values(|s: StructItem| struct_passes_all(stages@, s)));
                assert forall|i: int| 0 <= i < r@.len() implies #[trigger] r@[i].name_view() == Some(
                    query_targets(*q, *ast)[i].0,
                ) && crate::query::node_span(r@[i]) == Some(query_targets(*q, *ast)[i].1) by {
                    assert(is_struct_node(r@[i], sel[i]));
                }
            }
            r
        },
        RuleQuery::Or(a, b) => {
            let ra = run_query(a, ast);
            let rb = run_query(b, ast);
            let ghost (va, vb) = (ra@, rb@);
            let r = ra.or(rb);
            proof {
                let ta = query_targets(**a, *ast);
                let tb = query_targets(**b, *ast);
                assert forall|i: int| 0 <= i < r@.len() implies #[trigger] r@[i].name_view() == Some(
                    query_targets(*q, *ast)[i].0,
                ) && crate::query::node_span(r@[i]) == Some(query_targets(*q, *ast)[i].1) by {
                    if i < va.len() {
                        assert(r@[i] == va[i]);
                        assert(va[i].name_view() == Some(ta[i].0));
                    } else {
                        assert(r@[i] == vb[i - va.len()]);
                        assert(vb[i - va.len()].name_view() == Some(tb[i - va.len()].0));
                    }
                }
            }
            r
        },
    }
}

/// A rule: identity, metadata and the query it runs. A rule is immutable
/// once built.
pub struct Rule {
    id: String,
    title: String,
    description: String,
    severity: Severity,
    rule_type: RuleType,
    recommendations: Vec<String>,
    references: Vec<String>,
    tags: Vec<String>,
    enabled: bool,
    query: RuleQuery,
}

impl Rule {
    pub closed spec fn id_view(&self) -> Seq<char> {
        self.id@
    }

    pub closed spec fn title_view(&self) -> Seq<char> {
        self.title@
    }

    pub closed spec fn description_view(&self) -> Seq<char> {
        self.description@
    }

    pub closed spec fn severity_view(&self) -> Severity {
        self.severity
    }

    pub closed spec fn rule_type_view(&self) -> RuleType {
        self.rule_type
    }

    pub closed spec fn enabled_view(&self) -> bool {
        self.enabled
    }

    pub closed spec fn query_view(&self) -> RuleQuery {
        self.query
    }

    pub closed spec fn recommendations_view(&self) -> Seq<Seq<char>> {
        self.recommendations@.map_values(|s: String| s@)
    }

    pub closed spec fn references_view(&self) -> Seq<Seq<char>> {
        self.references@.map_values(|s: String| s@)
    }

    pub closed spec fn tags_view(&self) -> Seq<Seq<char>> {
        self.tags@.map_values(|s: String| s@)
    }

    pub fn id(&self) -> (r: &str)
        ensures
            r@ == self.id_view(),
    {
        self.id.as_str()
    }

    pub fn title(&self) -> (r: &str)
        ensures
            r@ == self.title_view(),
    {
        self.title.as_str()
    }

    pub fn description(&self) -> (r: &str)
        ensures
            r@ == self.description_view(),
    {
        self.description.as_str()
    }

    pub fn severity(&self) -> (r: Severity)
        ensures
            r == self.severity_view(),
    {
        self.severity
    }

    pub fn rule_type(&self) -> (r: RuleType)
        ensures
            r == self.rule_type_view(),
    {
        self.rule_type
    }

    pub fn enabled(&self) -> (r: bool)
        ensures
            r == self.enabled_view(),
    {
        self.enabled
    }

    pub fn recommendations(&self) -> (r: &Vec<String>)
        ensures
            r@.map_values(|s: String| s@) == self.recommendations_view(),
    {
        &self.recommendations
    }

    pub fn references(&self) -> (r: &Vec<String>)
        ensures
            r@.map_values(|s: String| s@) == self.references_view(),
    {
        &self.references
    }

    pub fn tags(&self) -> (r: &Vec<String>)
        ensures
            r@.map_values(|s: String| s@) == self.tags_view(),
    {
        &self.tags
    }

    /// What the rule reports on a file: nothing when disabled, else the
    /// targets of its query.
    pub open spec fn hits(&self, file: SourceFile) -> Seq<(Seq<char>, Span)> {
        if self.enabled_view() {
            query_targets(self.query_view(), file)
        } else {
            Seq::empty()
        }
    }

    /// Runs the rule on a file: one finding per target of its query, each
    /// with the rule's severity, title and description, located through the
    /// span mapper. A disabled rule reports nothing.
    pub fn check(&self, ast: &SourceFile, file_path: &str, span_extractor: &SpanExtractor) -> (r: Vec<Finding>)
        requires
            span_extractor.wf(),
        ensures
            r@.len() == self.hits(*ast).len(),
            forall|i: int|
                0 <= i < r@.len() ==> #[trigger] target_finding(
                    r@[i],
                    self.hits(*ast)[i].0,
                    self.hits(*ast)[i].1,
                    self.severity_view(),
                    self.title_view(),
                    self.description_view(),
                    span_extractor.file(),
                    span_extractor.line_views(),
                ),
    {
        let q = run_query(&self.query, ast);
        let ghost nodes = q@;
        let found = q.to_findings_with_span_extractor(
            self.severity,
            self.title.as_str(),
            self.description.as_str(),
            file_path,
            span_extractor,
        );
        if !self.enabled {
            return Vec::new();
        }
        assert forall|i: int| 0 <= i < found@.len() implies #[trigger] target_finding(
            found@[i],
            self.hits(*ast)[i].0,
            self.hits(*ast)[i].1,
            self.severity_view(),
            self.title_view(),
            self.description_view(),
            span_extractor.file(),
            span_extractor.line_views(),
        ) by {
            assert(span_finding(
                found@[i],
                nodes[i],
                self.severity,
                self.title@,
                self.description@,
                file_path@,
                *span_extractor,
            ));
            assert(nodes[i].name_view() == Some(query_targets(self.query, *ast)[i].0));
        }
        found
    }
}

/// Accumulates a rule's identity, metadata and query.
pub struct RuleBuilder {
    id: String,
    title: String,
    description: String,
    severity: Severity,
    rule_type: RuleType,
    query: Option<RuleQuery>,
    references: Vec<String>,
    recommendations: Vec<String>,
    tags: Vec<String>,
    enabled: bool,
}

fn strings_of(items: Vec<&str>) -> (r: Vec<String>)
    ensures
        r@.map_values(|s: String| s@) == items@.map_values(|s: &str| s@),
{
    let mut out: Vec<String> = Vec::new();
    let mut i: usize = 0;
    while i < items.len()
        invariant
            i <= items@.len(),
            out@.len() == i,
            out@.map_values(|s: String| s@) == items@.take(i as int).map_values(|s: &str| s@),
        decreases items@.len() - i,
    {
        let ghost prev = out@;
        let x = string_from(items[i]);
        out.push(x);
        assert forall|j: int| 0 <= j <= i implies (#[trigger] out@[j])@ == items@[j]@ by {
            if j < i {
                assert(out@[j] == prev[j]);
                assert(prev.map_values(|s: String| s@)[j] == items@.take(i as int).map_values(|s: &str| s@)[j]);
            }
        }
        assert(out@.map_values(|s: String| s@) =~= items@.take(i + 1).map_values(|s: &str| s@));
        i += 1;
    }
    assert(items@.take(i as int) =~= items@);
    out
}

impl RuleBuilder {
    pub closed spec fn id_view(&self) -> Seq<char> {
        self.id@
    }

    pub closed spec fn title_view(&self) -> Seq<char> {
        self.title@
    }

    pub closed spec fn description_view(&self) -> Seq<char> {
        self.description@
    }

    pub closed spec fn severity_view(&self) -> Severity {
        self.severity
    }

    pub closed spec fn rule_type_view(&self) -> RuleType {
        self.rule_type
    }

    pub closed spec fn query_view(&self) -> Option<RuleQuery> {
        self.query
    }

    pub closed spec fn enabled_view(&self) -> bool {
        self.enabled
    }

    pub closed spec fn recommendations_view(&self) -> Seq<Seq<char>> {
        self.recommendations@.map_values(|s: String| s@)
    }

    pub closed spec fn references_view(&self) -> Seq<Seq<char>> {
        self.references@.map_values(|s: String| s@)
    }

    pub closed spec fn tags_view(&self) -> Seq<Seq<char>> {
        self.tags@.map_values(|s: String| s@)
    }

    /// Everything but the fields that a setter changes.
    pub open spec fn same_but_lists(&self, o: &RuleBuilder) -> bool {
        &&& self.id_view() == o.id_view()
        &&& self.title_view() == o.title_view()
        &&& self.description_view() == o.description_view()
        &&& self.severity_view() == o.severity_view()
        &&& self.rule_type_view() == o.rule_type_view()
        &&& self.query_view() == o.query_view()
        &&& self.enabled_view() == o.enabled_view()
    }

    /// An empty builder: empty texts, `Medium`, `Solana`, no query, no
    /// lists, enabled.
    pub fn new() -> (r: RuleBuilder)
        ensures
            r.id_view() == Seq::<char>::empty(),
            r.title_view() == Seq::<char>::empty(),
            r.description_view() == Seq::<char>::empty(),
            r.severity_view() == Severity::Medium,
            r.rule_type_view() == RuleType::Solana,
            r.query_view() is None,
            r.recommendations_view() == Seq::<Seq<char>>::empty(),
            r.references_view() == Seq::<Seq<char>>::empty(),
            r.tags_view() == Seq::<Seq<char>>::empty(),
            r.enabled_view(),
    {
        let r = RuleBuilder {
            id: String::new(),
            title: String::new(),
            description: String::new(),
            severity: Severity::Medium,
            rule_type: RuleType::Solana,
            query: None,
            references: Vec::new(),
            recommendations: Vec::new(),
            tags: Vec::new(),
            enabled: true,
        };
        assert(r.recommendations_view() =~= Seq::<Seq<char>>::empty());
        assert(r.references_view() =~= Seq::<Seq<char>>::empty());
        assert(r.tags_view() =~= Seq::<Seq<char>>::empty());
        r
    }

    pub fn id(self, id: &str) -> (r: RuleBuilder)
        ensures
            r.id_view() == id@,
            r.title_view() == self.title_view(),
            r.description_view() == self.description_view(),
            r.severity_view() == self.severity_view(),
            r.rule_type_view() == self.rule_type_view(),
            r.query_view() == self.query_view(),
            r.enabled_view() == self.enabled_view(),
            r.recommendations_view() == self.recommendations_view(),
            r.references_view() == self.references_view(),
            r.tags_view() == self.tags_view(),
    {
        RuleBuilder { id: string_from(id), ..self }
    }

    pub fn title(self, title: &str) -> (r: RuleBuilder)
        ensures
            r.title_view() == title@,
            r.id_view() == self.id_view(),
            r.description_view() == self.description_view(),
            r.severity_view() == self.severity_view(),
            r.rule_type_view() == self.rule_type_view(),
            r.query_view() == self.query_view(),
            r.enabled_view() == self.enabled_view(),
            r.recommendations_view() == self.recommendations_view(),
            r.references_view() == self.references_view(),
            r.tags_view() == self.tags_view(),
    {
        RuleBuilder { title: string_from(title), ..self }
    }

    pub fn description(self, description: &str) -> (r: RuleBuilder)
        ensures
            r.description_view() == description@,
            r.id_view() == self.id_view(),
            r.title_view() == self.title_view(),
            r.severity_view() == self.severity_view(),
            r.rule_type_view() == self.rule_type_view(),
            r.query_view() == self.query_view(),
            r.enabled_view() == self.enabled_view(),
            r.recommendations_view() == self.recommendations_view(),
            r.references_view() == self.references_view(),
            r.tags_view() == self.tags_view(),
    {
        RuleBuilder { description: string_from(description), ..self }
    }

    pub fn severity(self, severity: Severity) -> (r: RuleBuilder)
        ensures
            r.severity_view() == severity,
            r.id_view() == self.id_view(),
            r.title_view() == self.title_view(),
            r.description_view() == self.description_view(),
            r.rule_type_view() == self.rule_type_view(),
            r.query_view() == self.query_view(),
            r.enabled_view() == self.enabled_view(),
            r.recommendations_view() == self.recommendations_view(),
            r.references_view() == self.references_view(),
            r.tags_view() == self.tags_view(),
    {
        RuleBuilder { severity, ..self }
    }

    pub fn rule_type(self, rule_type: RuleType) -> (r: RuleBuilder)
        ensures
            r.rule_type_view() == rule_type,
            r.id_view() == self.id_view(),
            r.title_view() == self.title_view(),
            r.description_view() == self.description_view(),
            r.severity_view() == self.severity_view(),
            r.query_view() == self.query_view(),
            r.enabled_view() == self.enabled_view(),
            r.recommendations_view() == self.recommendations_view(),
            r.references_view() == self.references_view(),
            r.tags_view() == self.tags_view(),
    {
        RuleBuilder { rule_type, ..self }
    }

    /// Sets the query that the rule runs.
    pub fn query(self, query: RuleQuery) -> (r: RuleBuilder)
        ensures
            r.query_view() == Some(query),
            r.id_view() == self.id_view(),
            r.title_view() == self.title_view(),
            r.description_view() == self.description_view(),
            r.severity_view() == self.severity_view(),
            r.rule_type_view() == self.rule_type_view(),
            r.enabled_view() == self.enabled_view(),
            r.recommendations_view() == self.recommendations_view(),
            r.references_view() == self.references_view(),
            r.tags_view() == self.tags_view(),
    {
        RuleBuilder { query: Some(query), ..self }
    }

    pub fn enabled(self, enabled: bool) -> (r: RuleBuilder)
        ensures
            r.enabled_view() == enabled,
            r.id_view() == self.id_view(),
            r.title_view() == self.title_view(),
            r.description_view() == self.description_view(),
            r.severity_view() == self.severity_view(),
            r.rule_type_view() == self.rule_type_view(),
            r.query_view() == self.query_view(),
            r.recommendations_view() == self.recommendations_view(),
            r.references_view() == self.references_view(),
            r.tags_view() == self.tags_view(),
    {
        RuleBuilder { enabled, ..self }
    }

    pub fn reference(self, reference: &str) -> (r: RuleBuilder)
        ensures
            self.same_but_lists(&r),
            r.references_view() == self.references_view().push(reference@),
            r.recommendations_view() == self.recommendations_view(),
            r.tags_view() == self.tags_view(),
    {
        let mut b = self;
        b.references.push(string_from(reference));
        assert(b.references_view() =~= self.references_view().push(reference@));
        b
    }

    pub fn references(self, refs: Vec<&str>) -> (r: RuleBuilder)
        ensures
            self.same_but_lists(&r),
            r.references_view() == self.references_view() + refs@.map_values(|s: &str| s@),
            r.recommendations_view() == self.recommendations_view(),
            r.tags_view() == self.tags_view(),
    {
        let mut b = self;
        let mut more = strings_of(refs);
        b.references.append(&mut more);
        assert(b.references_view() =~= self.references_view() + refs@.map_values(|s: &str| s@));
        b
    }

    pub fn recommendation(self, recommendation: &str) -> (r: RuleBuilder)
        ensures
            self.same_but_lists(&r),
            r.recommendations_view() == self.recommendations_view().push(recommendation@),
            r.references_view() == self.references_view(),
            r.tags_view() == self.tags_view(),
    {
        let mut b = self;
        b.recommendations.push(string_from(recommendation));
        assert(b.recommendations_view() =~= self.recommendations_view().push(recommendation@));
        b
    }

    pub fn recommendations(self, recs: Vec<&str>) -> (r: RuleBuilder)
        ensures
            self.same_but_lists(&r),
            r.recommendations_view() == self.recommendations_view() + recs@.map_values(|s: &str| s@),
            r.references_view() == self.references_view(),
            r.tags_view() == self.tags_view(),
    {
        let mut b = self;
        let mut more = strings_of(recs);
        b.recommendations.append(&mut more);
        assert(b.recommendations_view() =~= self.recommendations_view() + recs@.map_values(|s: &str| s@));
        b
    }

    pub fn tag(self, tag: &str) -> (r: RuleBuilder)
        ensures
            self.same_but_lists(&r),
            r.tags_view() == self.tags_view().push(tag@),
            r.references_view() == self.references_view(),
            r.recommendations_view() == self.recommendations_view(),
    {
        let mut b = self;
        b.tags.push(string_from(tag));
        assert(b.tags_view() =~= self.tags_view().push(tag@));
        b
    }

    pub fn tags(self, tags: Vec<&str>) -> (r: RuleBuilder)
        ensures
            self.same_but_lists(&r),
            r.tags_view() == self.tags_view() + tags@.map_values(|s: &str| s@),
            r.references_view() == self.references_view(),
            r.recommendations_view() == self.recommendations_view(),
    {
        let mut b = self;
        let mut more = strings_of(tags);
        b.tags.append(&mut more);
        assert(b.tags_view() =~= self.tags_view() + tags@.map_values(|s: &str| s@));
        b
    }

    /// The rule, with everything the builder holds. A query must have been
    /// set.
    pub fn build(self) -> (r: Rule)
        requires
            self.query_view() is Some,
        ensures
            r.id_view() == self.id_view(),
            r.title_view() == self.title_view(),
            r.description_view() == self.description_view(),
            r.severity_view() == self.severity_view(),
            r.rule_type_view() == self.rule_type_view(),
            r.enabled_view() == self.enabled_view(),
            Some(r.query_view()) == self.query_view(),
            r.recommendations_view() == self.recommendations_view(),
            r.references_view() == self.references_view(),
            r.tags_view() == self.tags_view(),
    {
        let query = match self.query {
            Some(q) => q,
            None => RuleQuery::UnsafeCode,
        };
        Rule {
            id: self.id,
            title: self.title,
            description: self.description,
            severity: self.severity,
            rule_type: self.rule_type,
            recommendations: self.recommendations,
            references: self.references,
            tags: self.tags,
            enabled: self.enabled,
            query,
        }
    }
}

/// Registers the built-in catalogue in the engine, each rule subject to the
/// engine's configuration.
pub fn register_builtin_rules(engine: &mut RuleEngine)
    ensures
        final(engine).config_view() == old(engine).config_view(),
        ({
            let cat = builtin_catalogue();
            let added = select(
                cat,
                cat.map_values(|e: CatalogueEntry| accepts(old(engine).config_view(), e.id, e.severity, e.rule_type)),
            );
            let n = old(engine).rules_view().len();
            &&& final(engine).rules_view().len() == n + added.len()
            &&& final(engine).rules_view().subrange(0, n as int) == old(engine).rules_view()
            &&& forall|k: int| 0 <= k < added.len() ==> #[trigger] is_entry(final(engine).rules_view()[n + k], added[k])
        }),
{
    engine.load_builtin_rules();
}

} // verus!
