//! Divisions whose divisor may be zero. A divisor is safe when it is a
//! non-zero numeric literal, or a variable that a `let` in scope bound to
//! one; anything else may be zero.
use vstd::prelude::*;
use crate::ast::{Block, BinOp, Expr, ExprKind, Lit, Span, Stmt, ex};
use crate::text::text_eq;

verus! {

/// A numeric literal whose digits are not those of zero.
pub open spec fn nonzero_lit(l: Lit) -> bool {
    match l {
        Lit::Int(d) => d@ != "0"@,
        Lit::Float(d) => d@ != "0"@ && d@ != "0.0"@,
        Lit::Other => false,
    }
}

/// An expression with the groupings of a single expression around it (as
/// parentheses are) taken away.
pub open spec fn peel(e: Expr) -> Expr
    decreases e,
{
    match e {
        Expr { kind: ExprKind::Other(b), .. } => if b.stmts@.len() == 1 && b.stmts@[0] is Expr {
            peel(b.stmts@[0]->Expr_0)
        } else {
            e
        },
        _ => e,
    }
}

/// A divisor that may be zero: neither a non-zero literal nor a variable
/// bound to one in scope (`safe`).
pub open spec fn dangerous_divisor(e: Expr, safe: Set<Seq<char>>) -> bool {
    let d = peel(e);
    &&& !(d matches Expr { kind: ExprKind::Lit(l), .. } && nonzero_lit(l))
    &&& !(d matches Expr { kind: ExprKind::Path(Some(n)), .. } && safe.contains(n@))
}

/// The initializer of a `let` is a non-zero literal.
pub open spec fn nonzero_init(init: Option<Expr>) -> bool {
    init matches Some(e) && (peel(e) matches Expr { kind: ExprKind::Lit(l), .. } && nonzero_lit(l))
}

/// The variables bound to non-zero literals after a statement: a `let` of a
/// non-zero literal adds its variable, any other `let` of that name shadows
/// it.
pub open spec fn env_after(safe: Set<Seq<char>>, st: Stmt) -> Set<Seq<char>> {
    match st {
        Stmt::Local(Some(n), init) => if nonzero_init(init) {
            safe.insert(n@)
        } else {
            safe.remove(n@)
        },
        _ => safe,
    }
}

/// The variables bound to non-zero literals after the statements `s` of a
/// block entered with `safe`.
pub open spec fn scope_env(safe: Set<Seq<char>>, s: Seq<Stmt>) -> Set<Seq<char>>
    decreases s.len(),
{
    if s.len() == 0 {
        safe
    } else {
        env_after(scope_env(safe, s.drop_last()), s.last())
    }
}

/// The expression divides, at any depth, by a divisor that may be zero. A
/// block (`Unsafe`, `Other`) is a scope: what its statements bind ends with
/// it.
pub open spec fn divides_unsafely(e: Expr, safe: Set<Seq<char>>) -> bool
    decreases e,
{
    match e {
        Expr { kind: ExprKind::Call(f, args), .. } => divides_unsafely(*f, safe) || exprs_divide_unsafely(args@, safe),
        Expr { kind: ExprKind::MethodCall(r, _m, args), .. } => divides_unsafely(*r, safe) || exprs_divide_unsafely(args@, safe),
        Expr { kind: ExprKind::Binary(op, l, r, _lt, _rt), .. } => (op == BinOp::Div && dangerous_divisor(*r, safe)) || divides_unsafely(
            *l,
            safe,
        ) || divides_unsafely(*r, safe),
        Expr { kind: ExprKind::Field(b), .. } => divides_unsafely(*b, safe),
        Expr { kind: ExprKind::Unsafe(b), .. } => stmts_divide_unsafely(b.stmts@, safe),
        Expr { kind: ExprKind::Other(b), .. } => stmts_divide_unsafely(b.stmts@, safe),
        _ => false,
    }
}

pub open spec fn exprs_divide_unsafely(s: Seq<Expr>, safe: Set<Seq<char>>) -> bool
    decreases s,
{
    s.len() > 0 && (exprs_divide_unsafely(s.drop_last(), safe) || divides_unsafely(s.last(), safe))
}

/// A `let` is checked in the scope before its binding.
pub open spec fn stmt_divides_unsafely(st: Stmt, safe: Set<Seq<char>>) -> bool
    decreases st,
{
    match st {
        Stmt::Local(_n, Some(e)) => divides_unsafely(e, safe),
        Stmt::Local(_n, None) => false,
        Stmt::Expr(e) => divides_unsafely(e, safe),
    }
}

/// Each statement is checked with what the statements before it bound.
pub open spec fn stmts_divide_unsafely(s: Seq<Stmt>, safe: Set<Seq<char>>) -> bool
    decreases s,
{
    s.len() > 0 && (stmts_divide_unsafely(s.drop_last(), safe) || stmt_divides_unsafely(
        s.last(),
        scope_env(safe, s.drop_last()),
    ))
}

/// The block divides, at any depth, by a divisor that may be zero.
pub open spec fn block_has_unsafe_division(b: Block) -> bool {
    stmts_divide_unsafely(b.stmts@, Set::empty())
}

/// `v` holds the name `m`.
pub open spec fn in_names(v: Seq<String>, m: Seq<char>) -> bool {
    exists|k: int| 0 <= k < v.len() && #[trigger] v[k]@ == m
}

/// Dividing by a variable bound just before to a non-zero literal is safe;
/// dividing by a variable that nothing in scope binds, or by a zero
/// literal, is not.
pub proof fn law_division_cases(x: String, z: String, lz: Lit, zero: Lit, lt: String, rt: String, span: Span)
    requires
        nonzero_lit(lz),
        !nonzero_lit(zero),
    ensures
        !stmts_divide_unsafely(
            seq![
                Stmt::Local(Some(z), Some(ex(ExprKind::Lit(lz), span))),
                Stmt::Expr(ex(ExprKind::Binary(BinOp::Div, Box::new(ex(ExprKind::Path(Some(x)), span)), Box::new(ex(ExprKind::Path(Some(z)), span)), lt, rt), span)),
            ],
            Set::empty(),
        ),
        stmts_divide_unsafely(
            seq![Stmt::Expr(ex(ExprKind::Binary(BinOp::Div, Box::new(ex(ExprKind::Path(Some(x)), span)), Box::new(ex(ExprKind::Path(Some(z)), span)), lt, rt), span))],
            Set::empty(),
        ),
        stmts_divide_unsafely(
            seq![Stmt::Expr(ex(ExprKind::Binary(BinOp::Div, Box::new(ex(ExprKind::Path(Some(x)), span)), Box::new(ex(ExprKind::Lit(zero), span)), lt, rt), span))],
            Set::empty(),
        ),
{
    let bind = Stmt::Local(Some(z), Some(ex(ExprKind::Lit(lz), span)));
    let div = Stmt::Expr(ex(ExprKind::Binary(BinOp::Div, Box::new(ex(ExprKind::Path(Some(x)), span)), Box::new(ex(ExprKind::Path(Some(z)), span)), lt, rt), span));
    let by_zero = Stmt::Expr(ex(ExprKind::Binary(BinOp::Div, Box::new(ex(ExprKind::Path(Some(x)), span)), Box::new(ex(ExprKind::Lit(zero), span)), lt, rt), span));
    let s1 = seq![bind, div];
    assert(s1.drop_last() =~= seq![bind]);
    assert(seq![bind].drop_last() =~= Seq::<Stmt>::empty());
    assert(peel(ex(ExprKind::Lit(lz), span)) == ex(ExprKind::Lit(lz), span));
    assert(nonzero_init(Some(ex(ExprKind::Lit(lz), span))));
    assert(scope_env(Set::<Seq<char>>::empty(), Seq::<Stmt>::empty()) == Set::<Seq<char>>::empty());
    assert(!stmts_divide_unsafely(Seq::<Stmt>::empty(), Set::<Seq<char>>::empty()));
    assert(!divides_unsafely(ex(ExprKind::Lit(lz), span), Set::<Seq<char>>::empty()));
    assert(seq![bind].last() == bind);
    assert(scope_env(Set::empty(), seq![bind]) == Set::<Seq<char>>::empty().insert(z@));
    assert(!stmt_divides_unsafely(bind, Set::<Seq<char>>::empty()));
    assert(!stmts_divide_unsafely(seq![bind], Set::empty()));
    assert(peel(ex(ExprKind::Path(Some(z)), span)) == ex(ExprKind::Path(Some(z)), span));
    assert(peel(ex(ExprKind::Path(Some(x)), span)) == ex(ExprKind::Path(Some(x)), span));
    assert(!divides_unsafely(ex(ExprKind::Path(Some(x)), span), Set::<Seq<char>>::empty().insert(z@)));
    assert(!divides_unsafely(ex(ExprKind::Path(Some(z)), span), Set::<Seq<char>>::empty().insert(z@)));
    assert(!stmt_divides_unsafely(div, Set::<Seq<char>>::empty().insert(z@)));
    assert(seq![div].drop_last() =~= Seq::<Stmt>::empty());
    assert(seq![by_zero].drop_last() =~= Seq::<Stmt>::empty());
    assert(peel(ex(ExprKind::Lit(zero), span)) == ex(ExprKind::Lit(zero), span));
    assert(stmt_divides_unsafely(div, Set::empty()));
    assert(stmt_divides_unsafely(by_zero, Set::empty()));
}

/// The names held by `v` are those of `safe`.
pub open spec fn holds_names(v: Seq<String>, safe: Set<Seq<char>>) -> bool {
    forall|n: Seq<char>| #[trigger] safe.contains(n) <==> in_names(v, n)
}

fn env_contains(env: &Vec<String>, n: &String) -> (r: bool)
    ensures
        r == exists|k: int| 0 <= k < env@.len() && #[trigger] env@[k]@ == n@,
{
    let mut k: usize = 0;
    while k < env.len()
        invariant
            k <= env@.len(),
            forall|j: int| 0 <= j < k ==> env@[j]@ != n@,
        decreases env@.len() - k,
    {
        if env[k] == *n {
            assert(env@[k as int]@ == n@);
            return true;
        }
        k += 1;
    }
    false
}

fn copy_env(env: &Vec<String>) -> (r: Vec<String>)
    ensures
        r@.len() == env@.len(),
        forall|k: int| 0 <= k < env@.len() ==> (#[trigger] r@[k])@ == env@[k]@,
{
    let mut out: Vec<String> = Vec::new();
    let mut i: usize = 0;
    while i < env.len()
        invariant
            i <= env@.len(),
            out@.len() == i,
            forall|k: int| 0 <= k < i ==> (#[trigger] out@[k])@ == env@[k]@,
        decreases env@.len() - i,
    {
        out.push(env[i].clone());
        i += 1;
    }
    out
}

fn without_name(env: &Vec<String>, n: &String) -> (r: Vec<String>)
    ensures
        forall|m: Seq<char>| #[trigger] in_names(r@, m) <==> (m != n@ && in_names(env@, m)),
{
    let mut out: Vec<String> = Vec::new();
    let mut i: usize = 0;
    while i < env.len()
        invariant
            i <= env@.len(),
            forall|k: int| 0 <= k < out@.len() ==> (#[trigger] out@[k])@ != n@,
            forall|m: Seq<char>| #[trigger] in_names(out@, m) <==> (m != n@ && in_names(env@.take(i as int), m)),
        decreases env@.len() - i,
    {
        let ghost before = out@;
        if env[i] != *n {
            out.push(env[i].clone());
        }
        let ghost pre = env@.take(i as int);
        let ghost post = env@.take(i + 1);
        assert forall|m: Seq<char>| #[trigger] in_names(out@, m) <==> (m != n@ && in_names(post, m)) by {
            if in_names(out@, m) {
                let k = choose|k: int| 0 <= k < out@.len() && #[trigger] out@[k]@ == m;
                if k < before.len() {
                    assert(before[k]@ == m);
                    assert(in_names(before, m));
                    let j = choose|j: int| 0 <= j < pre.len() && #[trigger] pre[j]@ == m;
                    assert(post[j]@ == m);
                } else {
                    assert(post[i as int]@ == m);
                }
            }
            if m != n@ && in_names(post, m) {
                let k = choose|k: int| 0 <= k < post.len() && #[trigger] post[k]@ == m;
                if k < i {
                    assert(pre[k]@ == m);
                    assert(in_names(pre, m));
                    assert(in_names(before, m));
                    let j = choose|j: int| 0 <= j < before.len() && #[trigger] before[j]@ == m;
                    assert(out@[j]@ == m);
                } else {
                    assert(out@[before.len() as int]@ == m);
                }
            }
        }
        i += 1;
    }
    assert(env@.take(i as int) =~= env@);
    out
}

fn nonzero_lit_exec(l: &Lit) -> (r: bool)
    ensures
        r == nonzero_lit(*l),
{
    match l {
        Lit::Int(d) => !text_eq(d.as_str(), "0"),
        Lit::Float(d) => !text_eq(d.as_str(), "0") && !text_eq(d.as_str(), "0.0"),
        Lit::Other => false,
    }
}

fn peel_exec(e: &Expr) -> (r: &Expr)
    ensures
        *r == peel(*e),
    decreases e,
{
    match e {
        Expr { kind: ExprKind::Other(b), .. } => {
            if b.stmts.len() == 1 {
                match &b.stmts[0] {
                    Stmt::Expr(inner) => {
                        proof {
                            assert(decreases_to!(b.stmts => b.stmts[0]));
                        }
                        peel_exec(inner)
                    },
                    _ => e,
                }
            } else {
                e
            }
        },
        _ => e,
    }
}

fn nonzero_init_exec(init: &Option<Expr>) -> (r: bool)
    ensures
        r == nonzero_init(*init),
{
    match init {
        Some(e) => match peel_exec(e) {
            Expr { kind: ExprKind::Lit(l), .. } => nonzero_lit_exec(l),
            _ => false,
        },
        None => false,
    }
}

fn divisor_is_dangerous(e: &Expr, env: &Vec<String>, Ghost(safe): Ghost<Set<Seq<char>>>) -> (r: bool)
    requires
        holds_names(env@, safe),
    ensures
        r == dangerous_divisor(*e, safe),
{
    match peel_exec(e) {
        Expr { kind: ExprKind::Lit(l), .. } => !nonzero_lit_exec(l),
        Expr { kind: ExprKind::Path(Some(n)), .. } => !env_contains(env, n),
        _ => true,
    }
}

fn expr_divides(e: &Expr, env: &Vec<String>, Ghost(safe): Ghost<Set<Seq<char>>>) -> (r: bool)
    requires
        holds_names(env@, safe),
    ensures
        r == divides_unsafely(*e, safe),
    decreases e,
{
    match e {
        Expr { kind: ExprKind::Call(f, args), .. } => expr_divides(f, env, Ghost(safe)) || exprs_divide(args, env, Ghost(safe)),
        Expr { kind: ExprKind::MethodCall(r, _, args), .. } => expr_divides(r, env, Ghost(safe)) || exprs_divide(args, env, Ghost(safe)),
        Expr { kind: ExprKind::Binary(op, l, r, _, _), .. } => (*op == BinOp::Div && divisor_is_dangerous(r, env, Ghost(safe)))
            || expr_divides(l, env, Ghost(safe)) || expr_divides(r, env, Ghost(safe)),
        Expr { kind: ExprKind::Field(b), .. } => expr_divides(b, env, Ghost(safe)),
        Expr { kind: ExprKind::Unsafe(b), .. } => stmts_divide(&b.stmts, env, Ghost(safe)),
        Expr { kind: ExprKind::Other(b), .. } => stmts_divide(&b.stmts, env, Ghost(safe)),
        _ => false,
    }
}

fn exprs_divide(v: &Vec<Expr>, env: &Vec<String>, Ghost(safe): Ghost<Set<Seq<char>>>) -> (r: bool)
    requires
        holds_names(env@, safe),
    ensures
        r == exprs_divide_unsafely(v@, safe),
    decreases v,
{
    let mut found = false;
    let mut i: usize = 0;
    assert(v@.take(0) =~= Seq::<Expr>::empty());
    while i < v.len()
        invariant
            holds_names(env@, safe),
            i <= v@.len(),
            found == exprs_divide_unsafely(v@.take(i as int), safe),
        decreases v@.len() - i,
    {
        proof {
            assert(decreases_to!(v => v[i as int]));
        }
        let f = expr_divides(&v[i], env, Ghost(safe));
        assert(v@.take(i + 1).drop_last() =~= v@.take(i as int));
        assert(v@.take(i + 1).last() == v@[i as int]);
        found = found || f;
        i += 1;
    }
    assert(v@.take(i as int) =~= v@);
    found
}

fn stmt_divides(s: &Stmt, env: &Vec<String>, Ghost(safe): Ghost<Set<Seq<char>>>) -> (r: bool)
    requires
        holds_names(env@, safe),
    ensures
        r == stmt_divides_unsafely(*s, safe),
    decreases s,
{
    match s {
        Stmt::Local(_, Some(e)) => expr_divides(e, env, Ghost(safe)),
        Stmt::Local(_, None) => false,
        Stmt::Expr(e) => expr_divides(e, env, Ghost(safe)),
    }
}

fn stmts_divide(v: &Vec<Stmt>, env: &Vec<String>, Ghost(safe): Ghost<Set<Seq<char>>>) -> (r: bool)
    requires
        holds_names(env@, safe),
    ensures
        r == stmts_divide_unsafely(v@, safe),
    decreases v,
{
    let mut scope = copy_env(env);
    let ghost mut cur = safe;
    assert forall|n: Seq<char>| #[trigger] cur.contains(n) <==> exists|k: int|
        0 <= k < scope@.len() && #[trigger] scope@[k]@ == n by {
        if exists|k: int| 0 <= k < scope@.len() && #[trigger] scope@[k]@ == n {
            let k = choose|k: int| 0 <= k < scope@.len() && #[trigger] scope@[k]@ == n;
            assert(env@[k]@ == n);
        }
        if cur.contains(n) {
            let k = choose|k: int| 0 <= k < env@.len() && #[trigger] env@[k]@ == n;
            assert(scope@[k]@ == n);
        }
    }
    let mut found = false;
    let mut i: usize = 0;
    assert(v@.take(0) =~= Seq::<Stmt>::empty());
    while i < v.len()
        invariant
            i <= v@.len(),
            holds_names(scope@, cur),
            cur == scope_env(safe, v@.take(i as int)),
            found == stmts_divide_unsafely(v@.take(i as int), safe),
        decreases v@.len() - i,
    {
        proof {
            assert(decreases_to!(v => v[i as int]));
        }
        let st = &v[i];
        let f = stmt_divides(st, &scope, Ghost(cur));
        assert(v@.take(i + 1).drop_last() =~= v@.take(i as int));
        assert(v@.take(i + 1).last() == v@[i as int]);
        found = found || f;
        if let Stmt::Local(Some(n), init) = st {
            if nonzero_init_exec(init) {
                let ghost before = scope@;
                scope.push(n.clone());
                proof {
                    let next = cur.insert(n@);
                    assert forall|m: Seq<char>| #[trigger] next.contains(m) <==> exists|k: int|
                        0 <= k < scope@.len() && #[trigger] scope@[k]@ == m by {
                        if exists|k: int| 0 <= k < scope@.len() && #[trigger] scope@[k]@ == m {
                            let k = choose|k: int| 0 <= k < scope@.len() && #[trigger] scope@[k]@ == m;
                            if k < before.len() {
                                assert(before[k]@ == m);
                            }
                        }
                        if cur.contains(m) {
                            let k = choose|k: int| 0 <= k < before.len() && #[trigger] before[k]@ == m;
                            assert(scope@[k]@ == m);
                        }
                        if m == n@ {
                            assert(scope@[before.len() as int]@ == m);
                        }
                    }
                    cur = next;
                }
            } else {
                let ghost before = scope@;
                scope = without_name(&scope, n);
                proof {
                    let next = cur.remove(n@);
                    assert forall|m: Seq<char>| #[trigger] next.contains(m) <==> in_names(scope@, m) by {
                        assert(in_names(scope@, m) <==> (m != n@ && in_names(before, m)));
                        assert(cur.contains(m) <==> in_names(before, m));
                    }
                    cur = next;
                }
            }
        }
        i += 1;
    }
    assert(v@.take(i as int) =~= v@);
    found
}

/// Whether the block divides, at any depth, by a divisor that may be zero.
pub fn block_divides_unsafely(b: &Block) -> (r: bool)
    ensures
        r == block_has_unsafe_division(*b),
{
    let env: Vec<String> = Vec::new();
    stmts_divide(&b.stmts, &env, Ghost(Set::empty()))
}

} // verus!
