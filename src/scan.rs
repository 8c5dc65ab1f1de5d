//! Depth-first scans of function bodies: unsafe blocks, calls to a named
//! function, and owner comparisons.
use vstd::prelude::*;
use crate::text::{contains, text_contains, text_eq};
use crate::ast::{Block, BinOp, Expr, ExprKind, Stmt, expr_walk, exprs_walk, stmt_walk, stmts_walk};

verus! {

/// An `unsafe` block.
pub open spec fn is_unsafe_event(ev: Stmt) -> bool {
    ev matches Stmt::Expr(Expr { kind: ExprKind::Unsafe(_), .. })
}

/// A call whose callee is the single identifier `name`, or a method call
/// named `name`.
pub open spec fn calls_name(ev: Stmt, name: Seq<char>) -> bool {
    match ev {
        Stmt::Expr(Expr { kind: ExprKind::Call(f, _), .. }) => match *f {
            Expr { kind: ExprKind::Path(Some(n)), .. } => n@ == name,
            _ => false,
        },
        Stmt::Expr(Expr { kind: ExprKind::MethodCall(_, m, _), .. }) => m@ == name,
        _ => false,
    }
}

/// An owner comparison: an equality with `owner` in the text of an operand,
/// or a `require!`, `assert!` or `assert_eq!` whose arguments mention
/// `owner`.
pub open spec fn is_owner_check_event(ev: Stmt) -> bool {
    match ev {
        Stmt::Expr(Expr { kind: ExprKind::Binary(op, _, _, lt, rt), .. }) => op == BinOp::Eq && (contains(lt@, "owner"@) || contains(
            rt@,
            "owner"@,
        )),
        Stmt::Expr(Expr { kind: ExprKind::Macro(name, toks), .. }) => (name@ == "require"@ || name@ == "assert"@ || name@ == "assert_eq"@)
            && contains(toks@, "owner"@),
        _ => false,
    }
}

/// The block compares an owner at any depth.
pub open spec fn block_has_owner_check(b: Block) -> bool {
    let ev = stmts_walk(b.stmts@);
    exists|i: int| 0 <= i < ev.len() && #[trigger] is_owner_check_event(ev[i])
}

/// The block holds an `unsafe` block at any depth.
pub open spec fn block_has_unsafe(b: Block) -> bool {
    let ev = stmts_walk(b.stmts@);
    exists|i: int| 0 <= i < ev.len() && #[trigger] is_unsafe_event(ev[i])
}

/// The block calls `name` at any depth.
pub open spec fn block_calls(b: Block, name: Seq<char>) -> bool {
    let ev = stmts_walk(b.stmts@);
    exists|i: int| 0 <= i < ev.len() && #[trigger] calls_name(ev[i], name)
}

/// What a scan looks for.
pub enum Probe {
    UnsafeBlock,
    CallTo(String),
    OwnerCheck,
}

pub open spec fn hit(p: Probe, ev: Stmt) -> bool {
    match p {
        Probe::UnsafeBlock => is_unsafe_event(ev),
        Probe::CallTo(n) => calls_name(ev, n@),
        Probe::OwnerCheck => is_owner_check_event(ev),
    }
}

pub open spec fn any_hit(p: Probe, ev: Seq<Stmt>) -> bool {
    exists|i: int| 0 <= i < ev.len() && #[trigger] hit(p, ev[i])
}

struct Scan {
    probe: Probe,
    found: bool,
    seen: Ghost<Seq<Stmt>>,
}

impl Scan {
    spec fn wf(&self) -> bool {
        self.found == any_hit(self.probe, self.seen@)
    }

    proof fn lemma_any_hit_push(p: Probe, seen: Seq<Stmt>, ev: Stmt)
        ensures
            any_hit(p, seen.push(ev)) == (any_hit(p, seen) || hit(p, ev)),
    {
        let s2 = seen.push(ev);
        assert(s2[seen.len() as int] == ev);
        if any_hit(p, seen) {
            let i = choose|i: int| 0 <= i < seen.len() && #[trigger] hit(p, seen[i]);
            assert(hit(p, s2[i]));
        }
        if any_hit(p, s2) {
            let i = choose|i: int| 0 <= i < s2.len() && #[trigger] hit(p, s2[i]);
            if i < seen.len() {
                assert(hit(p, seen[i]));
            }
        }
    }

    fn expr_hit(&self, e: &Expr) -> (r: bool)
        ensures
            r == hit(self.probe, Stmt::Expr(*e)),
    {
        match (&self.probe, e) {
            (Probe::UnsafeBlock, Expr { kind: ExprKind::Unsafe(_), .. }) => true,
            (Probe::CallTo(name), Expr { kind: ExprKind::Call(f, _), .. }) => match &**f {
                Expr { kind: ExprKind::Path(Some(n)), .. } => *n == *name,
                _ => false,
            },
            (Probe::CallTo(name), Expr { kind: ExprKind::MethodCall(_, m, _), .. }) => *m == *name,
            (Probe::OwnerCheck, Expr { kind: ExprKind::Binary(BinOp::Eq, _, _, lt, rt), .. }) => text_contains(lt.as_str(), "owner")
                || text_contains(rt.as_str(), "owner"),
            (Probe::OwnerCheck, Expr { kind: ExprKind::Macro(name, toks), .. }) => (text_eq(name.as_str(), "require") || text_eq(name.as_str(), "assert")
                || text_eq(name.as_str(), "assert_eq")) && text_contains(toks.as_str(), "owner"),
            _ => false,
        }
    }

    /// Records one event and whether the probe hit it.
    fn record(&mut self, h: bool, Ghost(ev): Ghost<Stmt>)
        requires
            old(self).wf(),
            h == hit(old(self).probe, ev),
        ensures
            final(self).wf(),
            final(self).probe == old(self).probe,
            final(self).seen@ == old(self).seen@.push(ev),
    {
        proof {
            Self::lemma_any_hit_push(self.probe, self.seen@, ev);
        }
        let ghost old_seen = self.seen@;
        self.found = self.found || h;
        self.seen = Ghost(old_seen.push(ev));
    }
}

fn scan_expr(st: &mut Scan, e: &Expr)
    requires
        old(st).wf(),
    ensures
        final(st).wf(),
        final(st).probe == old(st).probe,
        final(st).seen@ == old(st).seen@ + expr_walk(*e),
    decreases e,
{
    let ghost s0 = st.seen@;
    let h = st.expr_hit(e);
    st.record(h, Ghost(Stmt::Expr(*e)));
    let ghost s1 = st.seen@;
    match e {
        Expr { kind: ExprKind::Call(f, args), .. } => {
            scan_expr(st, f);
            scan_exprs(st, args);
            assert(st.seen@ =~= s0 + expr_walk(*e));
        },
        Expr { kind: ExprKind::MethodCall(r, _, args), .. } => {
            scan_expr(st, r);
            scan_exprs(st, args);
            assert(st.seen@ =~= s0 + expr_walk(*e));
        },
        Expr { kind: ExprKind::Binary(_, l, r, _, _), .. } => {
            scan_expr(st, l);
            scan_expr(st, r);
            assert(st.seen@ =~= s0 + expr_walk(*e));
        },
        Expr { kind: ExprKind::Field(b), .. } => {
            scan_expr(st, b);
            assert(st.seen@ =~= s0 + expr_walk(*e));
        },
        Expr { kind: ExprKind::Unsafe(b), .. } => {
            scan_stmts(st, &b.stmts);
            assert(st.seen@ =~= s0 + expr_walk(*e));
        },
        Expr { kind: ExprKind::Other(b), .. } => {
            scan_stmts(st, &b.stmts);
            assert(st.seen@ =~= s0 + expr_walk(*e));
        },
        _ => {
            assert(st.seen@ =~= s0 + expr_walk(*e));
        },
    }
}

fn scan_exprs(st: &mut Scan, v: &Vec<Expr>)
    requires
        old(st).wf(),
    ensures
        final(st).wf(),
        final(st).probe == old(st).probe,
        final(st).seen@ == old(st).seen@ + exprs_walk(v@),
    decreases v,
{
    let ghost s0 = st.seen@;
    let mut i: usize = 0;
    assert(v@.take(0) =~= Seq::<Expr>::empty());
    while i < v.len()
        invariant
            st.wf(),
            st.probe == old(st).probe,
            s0 == old(st).seen@,
            i <= v@.len(),
            st.seen@ == s0 + exprs_walk(v@.take(i as int)),
        decreases v@.len() - i,
    {
        proof {
            assert(decreases_to!(v => v[i as int]));
        }
        scan_expr(st, &v[i]);
        assert(v@.take(i + 1).drop_last() =~= v@.take(i as int));
        assert(v@.take(i + 1).last() == v@[i as int]);
        assert(st.seen@ =~= s0 + exprs_walk(v@.take(i + 1)));
        i += 1;
    }
    assert(v@.take(i as int) =~= v@);
}

fn scan_stmt(st: &mut Scan, s: &Stmt)
    requires
        old(st).wf(),
    ensures
        final(st).wf(),
        final(st).probe == old(st).probe,
        final(st).seen@ == old(st).seen@ + stmt_walk(*s),
    decreases s,
{
    let ghost s0 = st.seen@;
    match s {
        Stmt::Local(_, init) => {
            st.record(false, Ghost(*s));
            if let Some(e) = init {
                scan_expr(st, e);
            }
            assert(st.seen@ =~= s0 + stmt_walk(*s));
        },
        Stmt::Expr(e) => {
            scan_expr(st, e);
        },
    }
}

fn scan_stmts(st: &mut Scan, v: &Vec<Stmt>)
    requires
        old(st).wf(),
    ensures
        final(st).wf(),
        final(st).probe == old(st).probe,
        final(st).seen@ == old(st).seen@ + stmts_walk(v@),
    decreases v,
{
    let ghost s0 = st.seen@;
    let mut i: usize = 0;
    assert(v@.take(0) =~= Seq::<Stmt>::empty());
    while i < v.len()
        invariant
            st.wf(),
            st.probe == old(st).probe,
            s0 == old(st).seen@,
            i <= v@.len(),
            st.seen@ == s0 + stmts_walk(v@.take(i as int)),
        decreases v@.len() - i,
    {
        proof {
            assert(decreases_to!(v => v[i as int]));
        }
        scan_stmt(st, &v[i]);
        assert(v@.take(i + 1).drop_last() =~= v@.take(i as int));
        assert(v@.take(i + 1).last() == v@[i as int]);
        assert(st.seen@ =~= s0 + stmts_walk(v@.take(i + 1)));
        i += 1;
    }
    assert(v@.take(i as int) =~= v@);
}

/// Scans a block for a probe: whether it hits any event of the walk.
fn scan_block(b: &Block, probe: Probe) -> (r: bool)
    ensures
        r == any_hit(probe, stmts_walk(b.stmts@)),
{
    let mut st = Scan { probe, found: false, seen: Ghost(Seq::empty()) };
    scan_stmts(&mut st, &b.stmts);
    assert(st.seen@ =~= stmts_walk(b.stmts@));
    st.found
}

/// Whether the block holds an `unsafe` block at any depth.
pub fn block_uses_unsafe(b: &Block) -> (r: bool)
    ensures
        r == block_has_unsafe(*b),
{
    let r = scan_block(b, Probe::UnsafeBlock);
    let ghost ev = stmts_walk(b.stmts@);
    assert(r ==> block_has_unsafe(*b)) by {
        if r {
            let i = choose|i: int| 0 <= i < ev.len() && #[trigger] hit(Probe::UnsafeBlock, ev[i]);
            assert(is_unsafe_event(ev[i]));
        }
    }
    assert(block_has_unsafe(*b) ==> r) by {
        if block_has_unsafe(*b) {
            let i = choose|i: int| 0 <= i < ev.len() && #[trigger] is_unsafe_event(ev[i]);
            assert(hit(Probe::UnsafeBlock, ev[i]));
        }
    }
    r
}

/// Whether the block calls the function or method `name` at any depth.
pub fn block_calls_to(b: &Block, name: &str) -> (r: bool)
    ensures
        r == block_calls(*b, name@),
{
    let n = crate::text::string_from(name);
    let ghost p = Probe::CallTo(n);
    let r = scan_block(b, Probe::CallTo(n));
    let ghost ev = stmts_walk(b.stmts@);
    assert(r ==> block_calls(*b, name@)) by {
        if r {
            let i = choose|i: int| 0 <= i < ev.len() && #[trigger] hit(p, ev[i]);
            assert(calls_name(ev[i], name@));
        }
    }
    assert(block_calls(*b, name@) ==> r) by {
        if block_calls(*b, name@) {
            let i = choose|i: int| 0 <= i < ev.len() && #[trigger] calls_name(ev[i], name@);
            assert(hit(p, ev[i]));
        }
    }
    r
}

/// Whether the block compares an owner at any depth.
pub fn block_checks_owner(b: &Block) -> (r: bool)
    ensures
        r == block_has_owner_check(*b),
{
    let r = scan_block(b, Probe::OwnerCheck);
    let ghost ev = stmts_walk(b.stmts@);
    assert(r ==> block_has_owner_check(*b)) by {
        if r {
            let i = choose|i: int| 0 <= i < ev.len() && #[trigger] hit(Probe::OwnerCheck, ev[i]);
            assert(is_owner_check_event(ev[i]));
        }
    }
    assert(block_has_owner_check(*b) ==> r) by {
        if block_has_owner_check(*b) {
            let i = choose|i: int| 0 <= i < ev.len() && #[trigger] is_owner_check_event(ev[i]);
            assert(hit(Probe::OwnerCheck, ev[i]));
        }
    }
    r
}

/// Looks for owner comparisons in function bodies and blocks, and remembers
/// whether it has seen one.
pub struct OwnerCheckFinder {
    pub found: bool,
}

impl OwnerCheckFinder {
    pub fn visit_block(&mut self, b: &Block)
        ensures
            final(self).found == (old(self).found || block_has_owner_check(*b)),
    {
        if block_checks_owner(b) {
            self.found = true;
        }
    }

    pub fn visit_fn(&mut self, f: &crate::ast::FnItem)
        ensures
            final(self).found == (old(self).found || block_has_owner_check(f.body)),
    {
        self.visit_block(&f.body);
    }
}

} // verus!
