//! The syntax tree that the analysis reads: what the rules need of a parsed
//! source file, held as plain values (identifier and token text, flags, spans).
use vstd::prelude::*;
use crate::text::text_eq;

verus! {

/// A position range in source text: lines are 1-based, columns are 0-based
/// character offsets within their line. A line of 0 means that no position
/// data was available.
#[derive(Clone, Copy, Debug, PartialEq, Eq, Structural)]
pub struct Span {
    pub start_line: usize,
    pub start_column: usize,
    pub end_line: usize,
    pub end_column: usize,
}

/// A literal, with the base-10 digits of a numeric one.
pub enum Lit {
    Int(String),
    Float(String),
    Other,
}

#[derive(Clone, Copy, Debug, PartialEq, Eq, Structural)]
pub enum BinOp {
    Div,
    Sub,
    Eq,
    Other,
}

/// An expression: its kind and its span.
pub struct Expr {
    pub kind: ExprKind,
    pub span: Span,
}

/// The expression of a kind at a span.
pub open spec fn ex(kind: ExprKind, span: Span) -> Expr {
    Expr { kind, span }
}

/// The kind of an expression. Kinds that no rule looks into (conditionals,
/// loops, closures, matches, ...) are `Other`, holding their sub-expressions
/// and their blocks in source order.
pub enum ExprKind {
    Lit(Lit),
    /// A path; `Some` with the identifier when it is a single identifier.
    Path(Option<String>),
    Call(Box<Expr>, Vec<Expr>),
    MethodCall(Box<Expr>, String, Vec<Expr>),
    /// An operator, its operands, and the token text of each operand.
    Binary(BinOp, Box<Expr>, Box<Expr>, String, String),
    Field(Box<Expr>),
    Unsafe(Block),
    /// A macro invocation in expression position: the macro's name and the
    /// token text of its arguments, which are not parsed further.
    Macro(String, String),
    Other(Block),
}

/// A statement: a `let` with its single bound identifier (if the pattern is
/// one) and initializer, or an expression.
pub enum Stmt {
    Local(Option<String>, Option<Expr>),
    Expr(Expr),
}

/// A block: its statements, its span and its token text.
pub struct Block {
    pub stmts: Vec<Stmt>,
    pub span: Span,
    pub text: String,
}

/// An attribute: its path text, whether it has the list form `path(...)`,
/// and the token text inside the list.
pub struct Attribute {
    pub path: String,
    pub is_list: bool,
    pub tokens: String,
}

/// A named struct field: its name, the identifier that names its type
/// (last path segment), the type's token text and its attributes.
pub struct Field {
    pub name: String,
    pub ty_name: String,
    pub ty_text: String,
    pub attrs: Vec<Attribute>,
}

/// A typed function parameter, by the token text of its type.
pub struct Param {
    pub ty_text: String,
}

/// A function, free or associated. `text` is the item's token text, which
/// identifies it structurally.
pub struct FnItem {
    pub name: String,
    pub is_pub: bool,
    pub is_unsafe: bool,
    pub params: Vec<Param>,
    /// The token text of the declared return type, if there is one.
    pub ret: Option<String>,
    pub body: Block,
    pub span: Span,
    pub text: String,
}

pub struct StructItem {
    pub name: String,
    pub attrs: Vec<Attribute>,
    /// The named fields; empty for tuple and unit structs.
    pub fields: Vec<Field>,
    pub span: Span,
    pub text: String,
}

pub struct EnumItem {
    pub name: String,
    pub span: Span,
    pub text: String,
}

pub enum Item {
    Fn(FnItem),
    Struct(StructItem),
    Enum(EnumItem),
    /// An implementation block, with its associated functions.
    Impl(Vec<FnItem>),
    /// A module: `Some` with its items when declared inline.
    Mod(Option<Vec<Item>>),
    Other,
}

pub struct SourceFile {
    pub items: Vec<Item>,
    pub span: Span,
    pub text: String,
}

/// The statements and expressions met when walking an expression depth-first
/// in source order, the expression itself first.
pub open spec fn expr_walk(e: Expr) -> Seq<Stmt>
    decreases e,
{
    seq![Stmt::Expr(e)] + match e {
        Expr { kind: ExprKind::Call(f, args), .. } => expr_walk(*f) + exprs_walk(args@),
        Expr { kind: ExprKind::MethodCall(r, _m, args), .. } => expr_walk(*r) + exprs_walk(args@),
        Expr { kind: ExprKind::Binary(_op, l, r, _lt, _rt), .. } => expr_walk(*l) + expr_walk(*r),
        Expr { kind: ExprKind::Field(b), .. } => expr_walk(*b),
        Expr { kind: ExprKind::Unsafe(b), .. } => stmts_walk(b.stmts@),
        Expr { kind: ExprKind::Other(b), .. } => stmts_walk(b.stmts@),
        _ => Seq::empty(),
    }
}

pub open spec fn exprs_walk(s: Seq<Expr>) -> Seq<Stmt>
    decreases s,
{
    if s.len() == 0 {
        Seq::empty()
    } else {
        exprs_walk(s.drop_last()) + expr_walk(s.last())
    }
}

/// A `let` is met before its initializer.
pub open spec fn stmt_walk(st: Stmt) -> Seq<Stmt>
    decreases st,
{
    match st {
        Stmt::Local(n, init) => seq![Stmt::Local(n, init)] + match init {
            Some(e) => expr_walk(e),
            None => Seq::empty(),
        },
        Stmt::Expr(e) => expr_walk(e),
    }
}

pub open spec fn stmts_walk(s: Seq<Stmt>) -> Seq<Stmt>
    decreases s,
{
    if s.len() == 0 {
        Seq::empty()
    } else {
        stmts_walk(s.drop_last()) + stmt_walk(s.last())
    }
}

pub open spec fn same_lit(a: Lit, b: Lit) -> bool {
    match (a, b) {
        (Lit::Int(x), Lit::Int(y)) => x@ == y@,
        (Lit::Float(x), Lit::Float(y)) => x@ == y@,
        (Lit::Other, Lit::Other) => true,
        _ => false,
    }
}

/// Structural equality of expressions: the same kind, the same identifiers,
/// literals and operators, and structurally equal sub-expressions; blocks
/// compare by token text, and spans are not compared.
pub open spec fn same_expr(a: Expr, b: Expr) -> bool
    decreases a,
{
    match (a, b) {
        (Expr { kind: ExprKind::Lit(x), .. }, Expr { kind: ExprKind::Lit(y), .. }) => same_lit(x, y),
        (Expr { kind: ExprKind::Path(x), .. }, Expr { kind: ExprKind::Path(y), .. }) => match (x, y) {
            (Some(m), Some(n)) => m@ == n@,
            (None, None) => true,
            _ => false,
        },
        (Expr { kind: ExprKind::Call(f, xs), .. }, Expr { kind: ExprKind::Call(g, ys), .. }) => same_expr(*f, *g) && same_exprs(xs@, ys@),
        (Expr { kind: ExprKind::MethodCall(r, m, xs), .. }, Expr { kind: ExprKind::MethodCall(q, n, ys), .. }) => same_expr(*r, *q) && m@ == n@ && same_exprs(
            xs@,
            ys@,
        ),
        (Expr { kind: ExprKind::Binary(o, l, r, lt, rt), .. }, Expr { kind: ExprKind::Binary(p, l2, r2, lt2, rt2), .. }) => o == p && same_expr(*l, *l2)
            && same_expr(*r, *r2) && lt@ == lt2@ && rt@ == rt2@,
        (Expr { kind: ExprKind::Field(x), .. }, Expr { kind: ExprKind::Field(y), .. }) => same_expr(*x, *y),
        (Expr { kind: ExprKind::Unsafe(x), .. }, Expr { kind: ExprKind::Unsafe(y), .. }) => x.text@ == y.text@,
        (Expr { kind: ExprKind::Macro(m, t), .. }, Expr { kind: ExprKind::Macro(n, u), .. }) => m@ == n@ && t@ == u@,
        (Expr { kind: ExprKind::Other(x), .. }, Expr { kind: ExprKind::Other(y), .. }) => x.text@ == y.text@,
        _ => false,
    }
}

pub open spec fn same_exprs(a: Seq<Expr>, b: Seq<Expr>) -> bool
    decreases a,
{
    if a.len() == 0 {
        b.len() == 0
    } else {
        b.len() == a.len() && same_exprs(a.drop_last(), b.drop_last()) && same_expr(a.last(), b.last())
    }
}

fn lits_equal(a: &Lit, b: &Lit) -> (r: bool)
    ensures
        r == same_lit(*a, *b),
{
    match (a, b) {
        (Lit::Int(x), Lit::Int(y)) => text_eq(x.as_str(), y.as_str()),
        (Lit::Float(x), Lit::Float(y)) => text_eq(x.as_str(), y.as_str()),
        (Lit::Other, Lit::Other) => true,
        _ => false,
    }
}

/// Structural equality, see `same_expr`.
pub fn exprs_equal(a: &Expr, b: &Expr) -> (r: bool)
    ensures
        r == same_expr(*a, *b),
    decreases a,
{
    match (a, b) {
        (Expr { kind: ExprKind::Lit(x), .. }, Expr { kind: ExprKind::Lit(y), .. }) => lits_equal(x, y),
        (Expr { kind: ExprKind::Path(x), .. }, Expr { kind: ExprKind::Path(y), .. }) => match (x, y) {
            (Some(m), Some(n)) => text_eq(m.as_str(), n.as_str()),
            (None, None) => true,
            _ => false,
        },
        (Expr { kind: ExprKind::Call(f, xs), .. }, Expr { kind: ExprKind::Call(g, ys), .. }) => exprs_equal(f, g) && expr_lists_equal(xs, ys),
        (Expr { kind: ExprKind::MethodCall(r, m, xs), .. }, Expr { kind: ExprKind::MethodCall(q, n, ys), .. }) => exprs_equal(r, q) && text_eq(
            m.as_str(),
            n.as_str(),
        ) && expr_lists_equal(xs, ys),
        (Expr { kind: ExprKind::Binary(o, l, r, lt, rt), .. }, Expr { kind: ExprKind::Binary(p, l2, r2, lt2, rt2), .. }) => *o == *p && exprs_equal(l, l2)
            && exprs_equal(r, r2) && text_eq(lt.as_str(), lt2.as_str()) && text_eq(rt.as_str(), rt2.as_str()),
        (Expr { kind: ExprKind::Field(x), .. }, Expr { kind: ExprKind::Field(y), .. }) => exprs_equal(x, y),
        (Expr { kind: ExprKind::Unsafe(x), .. }, Expr { kind: ExprKind::Unsafe(y), .. }) => text_eq(x.text.as_str(), y.text.as_str()),
        (Expr { kind: ExprKind::Macro(m, t), .. }, Expr { kind: ExprKind::Macro(n, u), .. }) => text_eq(m.as_str(), n.as_str()) && text_eq(t.as_str(), u.as_str()),
        (Expr { kind: ExprKind::Other(x), .. }, Expr { kind: ExprKind::Other(y), .. }) => text_eq(x.text.as_str(), y.text.as_str()),
        _ => false,
    }
}

fn expr_lists_equal(a: &Vec<Expr>, b: &Vec<Expr>) -> (r: bool)
    ensures
        r == same_exprs(a@, b@),
    decreases a,
{
    if a.len() != b.len() {
        assert(a@.len() == 0 ==> !same_exprs(a@, b@));
        return false;
    }
    let mut i: usize = 0;
    assert(a@.take(0) =~= Seq::<Expr>::empty());
    while i < a.len()
        invariant
            a@.len() == b@.len(),
            i <= a@.len(),
            same_exprs(a@.take(i as int), b@.take(i as int)),
        decreases a@.len() - i,
    {
        proof {
            assert(decreases_to!(a => a[i as int]));
        }
        let e = exprs_equal(&a[i], &b[i]);
        assert(a@.take(i + 1).drop_last() =~= a@.take(i as int));
        assert(b@.take(i + 1).drop_last() =~= b@.take(i as int));
        assert(a@.take(i + 1).last() == a@[i as int]);
        assert(b@.take(i + 1).last() == b@[i as int]);
        if !e {
            proof {
                if same_exprs(a@, b@) {
                    lemma_same_exprs_index(a@, b@, i as int);
                }
            }
            return false;
        }
        i += 1;
    }
    assert(a@.take(i as int) =~= a@);
    assert(b@.take(i as int) =~= b@);
    true
}

proof fn lemma_same_exprs_index(a: Seq<Expr>, b: Seq<Expr>, i: int)
    requires
        same_exprs(a, b),
        0 <= i < a.len(),
    ensures
        same_expr(a[i], b[i]),
    decreases a.len(),
{
    if i < a.len() - 1 {
        lemma_same_exprs_index(a.drop_last(), b.drop_last(), i);
    }
}

} // verus!
