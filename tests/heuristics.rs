use solana_lint::ast::{ExprKind, Attribute, BinOp, Block, Expr, Field, FnItem, Lit, Param, Span, Stmt, StructItem};
use solana_lint::filters::{
    fn_has_unsafe_divisions_exec, fn_is_anchor_instruction, fn_misses_error_handling, fn_uses_unsafe_exec,
    struct_derives_accounts, struct_has_duplicate_mutable_accounts, struct_has_owner_check,
};
use solana_lint::scan::{block_calls_to, OwnerCheckFinder};

fn ex(kind: ExprKind) -> Expr {
    Expr { kind, span: Span { start_line: 1, start_column: 0, end_line: 1, end_column: 1 } }
}

fn span() -> Span {
    Span { start_line: 1, start_column: 0, end_line: 1, end_column: 0 }
}

fn attr(path: &str, tokens: &str) -> Attribute {
    Attribute { path: path.to_string(), is_list: true, tokens: tokens.to_string() }
}

fn field(name: &str, attrs: Vec<Attribute>) -> Field {
    Field { name: name.to_string(), ty_name: "Account".to_string(), ty_text: "Account < 'info , Vault >".to_string(), attrs }
}

fn accounts_struct(fields: Vec<Field>) -> StructItem {
    StructItem {
        name: "Transfer".to_string(),
        attrs: vec![attr("derive", "Accounts")],
        fields,
        span: span(),
        text: "struct Transfer".to_string(),
    }
}

fn block(stmts: Vec<Stmt>) -> Block {
    Block { stmts, span: span(), text: "{ }".to_string() }
}

fn int_lit(d: &str) -> Expr {
    ex(ExprKind::Lit(Lit::Int(d.to_string())))
}

fn float_lit(d: &str) -> Expr {
    ex(ExprKind::Lit(Lit::Float(d.to_string())))
}

fn var(n: &str) -> Expr {
    ex(ExprKind::Path(Some(n.to_string())))
}

fn bin(op: BinOp, l: Expr, r: Expr) -> Expr {
    ex(ExprKind::Binary(op, Box::new(l), Box::new(r), String::new(), String::new()))
}

fn paren(e: Expr) -> Expr {
    ex(ExprKind::Other(block(vec![Stmt::Expr(e)])))
}

fn let_(n: &str, e: Expr) -> Stmt {
    Stmt::Local(Some(n.to_string()), Some(e))
}

fn func(name: &str, is_pub: bool, is_unsafe: bool, params: Vec<&str>, ret: Option<&str>, body: Vec<Stmt>) -> FnItem {
    FnItem {
        name: name.to_string(),
        is_pub,
        is_unsafe,
        params: params.into_iter().map(|t| Param { ty_text: t.to_string() }).collect(),
        ret: ret.map(|r| r.to_string()),
        body: block(body),
        span: span(),
        text: format!("fn {}", name),
    }
}

fn divides(body: Vec<Stmt>) -> bool {
    fn_has_unsafe_divisions_exec(&func("f", false, false, vec![], None, body))
}

#[test]
fn two_unconstrained_mutable_accounts_are_flagged() {
    let s = accounts_struct(vec![field("from", vec![attr("account", "mut")]), field("to", vec![attr("account", "mut")])]);
    assert!(struct_has_duplicate_mutable_accounts(&s));
}

#[test]
fn inequality_constraint_clears_duplicate_mutable_accounts() {
    let s = accounts_struct(vec![
        field("from", vec![attr("account", "mut , constraint = from . key () != to . key ()")]),
        field("to", vec![attr("account", "mut")]),
    ]);
    assert!(!struct_has_duplicate_mutable_accounts(&s));
}

#[test]
fn constraint_on_a_third_field_clears_duplicate_mutable_accounts() {
    let s = accounts_struct(vec![
        field("from", vec![attr("account", "mut")]),
        field("to", vec![attr("account", "mut")]),
        field("check", vec![attr("account", "constraint = from . key () != to . key ()")]),
    ]);
    assert!(!struct_has_duplicate_mutable_accounts(&s));
}

#[test]
fn seeds_on_one_field_leave_only_one_exposed() {
    let s = accounts_struct(vec![
        field("from", vec![attr("account", "mut , seeds = [b\"v\"] , bump")]),
        field("to", vec![attr("account", "mut")]),
    ]);
    assert!(!struct_has_duplicate_mutable_accounts(&s));
}

#[test]
fn two_exposed_among_three_mutable_accounts_are_flagged() {
    let s = accounts_struct(vec![
        field("vault", vec![attr("account", "mut , seeds = [b\"v\"] , bump")]),
        field("from", vec![attr("account", "mut")]),
        field("to", vec![attr("account", "mut")]),
    ]);
    assert!(struct_has_duplicate_mutable_accounts(&s));
}

#[test]
fn single_mutable_account_is_not_flagged() {
    let s = accounts_struct(vec![field("from", vec![attr("account", "mut")]), field("to", vec![])]);
    assert!(!struct_has_duplicate_mutable_accounts(&s));
}

#[test]
fn derive_accounts_is_read_from_the_derive_list() {
    let mut s = accounts_struct(vec![]);
    assert!(struct_derives_accounts(&s));
    s.attrs = vec![attr("derive", "Clone , Debug")];
    assert!(!struct_derives_accounts(&s));
    s.attrs = vec![attr("account", "Accounts")];
    assert!(!struct_derives_accounts(&s));
}

#[test]
fn owner_and_address_attributes_count_as_owner_checks() {
    assert!(struct_has_owner_check(&accounts_struct(vec![field("vault", vec![attr("account", "owner = program_id")])])));
    assert!(struct_has_owner_check(&accounts_struct(vec![field("vault", vec![attr("account", "address = KEY")])])));
    assert!(!struct_has_owner_check(&accounts_struct(vec![field("vault", vec![attr("account", "mut")])])));
}

#[test]
fn unsafe_signature_uses_unsafe() {
    assert!(fn_uses_unsafe_exec(&func("f", true, true, vec![], None, vec![])));
}

#[test]
fn nested_unsafe_block_uses_unsafe() {
    let inner = ex(ExprKind::Unsafe(block(vec![Stmt::Expr(ex(ExprKind::Call(Box::new(var("danger")), vec![])))])));
    let body = vec![Stmt::Expr(ex(ExprKind::Other(block(vec![Stmt::Expr(inner)]))))];
    assert!(fn_uses_unsafe_exec(&func("f", true, false, vec![], None, body)));
}

#[test]
fn calling_an_unsafe_function_without_unsafe_is_not_unsafe() {
    let body = vec![Stmt::Expr(ex(ExprKind::Call(Box::new(var("danger")), vec![])))];
    assert!(!fn_uses_unsafe_exec(&func("f", true, false, vec![], None, body)));
}

#[test]
fn division_by_variable_bound_to_nonzero_literal_is_safe() {
    assert!(!divides(vec![let_("z", int_lit("5")), Stmt::Expr(bin(BinOp::Div, var("x"), var("z")))]));
}

#[test]
fn division_by_untracked_parameter_is_unsafe() {
    assert!(divides(vec![Stmt::Expr(bin(BinOp::Div, var("x"), var("y")))]));
}

#[test]
fn division_by_zero_literal_is_unsafe() {
    assert!(divides(vec![Stmt::Expr(bin(BinOp::Div, var("x"), int_lit("0")))]));
    assert!(divides(vec![Stmt::Expr(bin(BinOp::Div, var("x"), float_lit("0.0")))]));
    assert!(!divides(vec![Stmt::Expr(bin(BinOp::Div, var("x"), int_lit("2")))]));
}

#[test]
fn variable_bound_after_the_division_does_not_help() {
    assert!(divides(vec![Stmt::Expr(bin(BinOp::Div, var("x"), var("z"))), let_("z", int_lit("5"))]));
}

#[test]
fn variable_bound_to_zero_stays_unsafe() {
    assert!(divides(vec![let_("z", int_lit("0")), Stmt::Expr(bin(BinOp::Div, var("x"), var("z")))]));
}

#[test]
fn calls_fields_and_subtractions_are_unsafe_divisors() {
    assert!(divides(vec![Stmt::Expr(bin(BinOp::Div, var("x"), ex(ExprKind::Call(Box::new(var("g")), vec![]))))]));
    assert!(divides(vec![Stmt::Expr(bin(BinOp::Div, var("x"), ex(ExprKind::Field(Box::new(var("s"))))))]));
    assert!(divides(vec![Stmt::Expr(bin(BinOp::Div, var("x"), paren(bin(BinOp::Sub, var("a"), var("b")))))]));
    assert!(divides(vec![Stmt::Expr(bin(BinOp::Div, var("x"), paren(bin(BinOp::Other, var("a"), var("b")))))]));
}

#[test]
fn parentheses_are_looked_through() {
    assert!(divides(vec![Stmt::Expr(bin(BinOp::Div, var("x"), paren(var("y"))))]));
    assert!(!divides(vec![Stmt::Expr(bin(BinOp::Div, var("x"), paren(paren(int_lit("4")))))]));
    assert!(!divides(vec![let_("z", int_lit("5")), Stmt::Expr(bin(BinOp::Div, var("x"), paren(var("z"))))]));
}

#[test]
fn method_call_divisor_is_unsafe() {
    let len = ex(ExprKind::MethodCall(Box::new(var("v")), "len".to_string(), vec![]));
    assert!(divides(vec![Stmt::Expr(bin(BinOp::Div, var("x"), len))]));
}

#[test]
fn binding_ends_with_its_block() {
    let inner = Stmt::Expr(ex(ExprKind::Other(block(vec![let_("z", int_lit("5"))]))));
    assert!(divides(vec![inner, Stmt::Expr(bin(BinOp::Div, var("x"), var("z")))]));
    let inside = Stmt::Expr(ex(ExprKind::Other(block(vec![Stmt::Expr(bin(BinOp::Div, var("x"), var("z")))]))));
    assert!(!divides(vec![let_("z", int_lit("5")), inside]));
}

#[test]
fn shadowing_binding_clears_a_safe_variable() {
    assert!(divides(vec![let_("z", int_lit("5")), let_("z", var("y")), Stmt::Expr(bin(BinOp::Div, var("x"), var("z")))]));
    assert!(!divides(vec![let_("z", var("y")), let_("z", int_lit("2")), Stmt::Expr(bin(BinOp::Div, var("x"), var("z")))]));
}

#[test]
fn division_nested_in_a_call_argument_is_found() {
    let call = ex(ExprKind::MethodCall(Box::new(var("v")), "push".to_string(), vec![bin(BinOp::Div, var("a"), var("b"))]));
    assert!(divides(vec![Stmt::Expr(call)]));
}

#[test]
fn anchor_instruction_needs_public_and_context() {
    assert!(fn_is_anchor_instruction(&func("h", true, false, vec!["Context < Ctx >"], None, vec![])));
    assert!(!fn_is_anchor_instruction(&func("h", false, false, vec!["Context < Ctx >"], None, vec![])));
    assert!(!fn_is_anchor_instruction(&func("h", true, false, vec!["u64"], None, vec![])));
}

#[test]
fn missing_error_handling_needs_public_without_result() {
    assert!(fn_misses_error_handling(&func("h", true, false, vec![], None, vec![])));
    assert!(fn_misses_error_handling(&func("h", true, false, vec![], Some("u64"), vec![])));
    assert!(!fn_misses_error_handling(&func("h", true, false, vec![], Some("Result < () >"), vec![])));
    assert!(!fn_misses_error_handling(&func("h", false, false, vec![], None, vec![])));
}

#[test]
fn calls_to_finds_calls_and_method_calls() {
    let b = block(vec![Stmt::Expr(ex(ExprKind::MethodCall(Box::new(var("ctx")), "transfer".to_string(), vec![])))]);
    assert!(block_calls_to(&b, "transfer"));
    assert!(!block_calls_to(&b, "ctx"));
    let c = block(vec![let_("r", ex(ExprKind::Call(Box::new(var("invoke")), vec![var("ix")])))]);
    assert!(block_calls_to(&c, "invoke"));
    assert!(!block_calls_to(&c, "ix"));
}

#[test]
fn owner_comparison_in_a_body_is_found() {
    let cmp = ex(ExprKind::Binary(
        BinOp::Eq,
        Box::new(ex(ExprKind::Field(Box::new(var("vault"))))),
        Box::new(var("program_id")),
        "vault . owner".to_string(),
        "program_id".to_string(),
    ));
    let mut finder = OwnerCheckFinder { found: false };
    finder.visit_fn(&func("h", true, false, vec![], None, vec![Stmt::Expr(ex(ExprKind::Other(block(vec![Stmt::Expr(cmp)]))))]));
    assert!(finder.found);
}

#[test]
fn owner_in_require_macro_is_found() {
    let m = ex(ExprKind::Macro("require".to_string(), "vault . owner == * program_id".to_string()));
    let mut finder = OwnerCheckFinder { found: false };
    finder.visit_block(&block(vec![Stmt::Expr(m)]));
    assert!(finder.found);
    let other = ex(ExprKind::Macro("msg".to_string(), "\"owner\"".to_string()));
    let mut finder = OwnerCheckFinder { found: false };
    finder.visit_block(&block(vec![Stmt::Expr(other)]));
    assert!(!finder.found);
}

#[test]
fn inequality_on_owner_is_not_an_owner_check() {
    let cmp = ex(ExprKind::Binary(BinOp::Other, Box::new(var("a")), Box::new(var("b")), "a . owner".to_string(), "b".to_string()));
    let mut finder = OwnerCheckFinder { found: false };
    finder.visit_block(&block(vec![Stmt::Expr(cmp)]));
    assert!(!finder.found);
}
