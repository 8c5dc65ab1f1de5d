use solana_lint::analysis::{Location, Severity};
use solana_lint::analyzer::{AnalysisOptions, Analyzer, SourceUnit};
use solana_lint::ast::{ExprKind, Attribute, BinOp, Block, Expr, Field, FnItem, Item, Lit, Param, SourceFile, Span, Stmt, StructItem};
use solana_lint::engine::{RuleEngine, RuleEngineConfig};
use solana_lint::query::{AstNode, AstQuery, NodeType};
use solana_lint::rules::{RuleBuilder, RuleQuery, RuleType, Source, Stage};
use solana_lint::span_utils::SpanExtractor;
use solana_lint::text::{is_pascal_case, is_snake_case};

fn ex(kind: ExprKind) -> Expr {
    Expr { kind, span: Span { start_line: 1, start_column: 0, end_line: 1, end_column: 1 } }
}

fn sp(a: usize, b: usize, c: usize, d: usize) -> Span {
    Span { start_line: a, start_column: b, end_line: c, end_column: d }
}

fn block(stmts: Vec<Stmt>) -> Block {
    Block { stmts, span: sp(1, 0, 1, 0), text: "{ }".to_string() }
}

fn func(name: &str, is_pub: bool, params: Vec<&str>, body: Vec<Stmt>, span: Span) -> FnItem {
    FnItem {
        name: name.to_string(),
        is_pub,
        is_unsafe: false,
        params: params.into_iter().map(|t| Param { ty_text: t.to_string() }).collect(),
        ret: None,
        body: block(body),
        span,
        text: format!("fn {} ()", name),
    }
}

fn strukt(name: &str, span: Span) -> StructItem {
    StructItem { name: name.to_string(), attrs: vec![], fields: vec![], span, text: format!("struct {}", name) }
}

fn sample_file() -> SourceFile {
    SourceFile {
        items: vec![
            Item::Fn(func("top", true, vec![], vec![], sp(1, 0, 1, 10))),
            Item::Struct(strukt("Top", sp(2, 0, 2, 10))),
            Item::Impl(vec![func("method", false, vec![], vec![], sp(3, 0, 3, 10))]),
            Item::Mod(Some(vec![
                Item::Fn(func("inner", true, vec![], vec![], sp(4, 0, 4, 10))),
                Item::Struct(strukt("Inner", sp(5, 0, 5, 10))),
            ])),
            Item::Mod(None),
            Item::Other,
        ],
        span: sp(1, 0, 5, 10),
        text: "file".to_string(),
    }
}

fn names(q: AstQuery) -> Vec<String> {
    q.collect().iter().map(|n| n.name()).collect()
}

#[test]
fn functions_reach_impls_and_inline_modules() {
    let f = sample_file();
    assert_eq!(names(AstQuery::new(&f).functions()), vec!["top", "method", "inner"]);
}

#[test]
fn structs_are_top_level_only() {
    let f = sample_file();
    assert_eq!(names(AstQuery::new(&f).structs()), vec!["Top"]);
}

#[test]
fn narrowing_by_name_and_visibility() {
    let f = sample_file();
    assert_eq!(names(AstQuery::new(&f).functions().with_name("inner")), vec!["inner"]);
    assert_eq!(names(AstQuery::new(&f).functions().public_functions()), vec!["top", "inner"]);
    assert_eq!(AstQuery::new(&f).structs().public_functions().count(), 0);
}

#[test]
fn or_keeps_duplicates() {
    let f = sample_file();
    let a = AstQuery::new(&f).functions();
    let b = AstQuery::new(&f).functions().public_functions();
    let (na, nb) = (AstQuery::new(&f).functions().count(), AstQuery::new(&f).functions().public_functions().count());
    assert_eq!(a.or(b).count(), na + nb);
    assert_eq!(na + nb, 5);
}

#[test]
fn and_keeps_nodes_present_in_both() {
    let f = sample_file();
    let a = AstQuery::new(&f).functions();
    let b = AstQuery::new(&f).functions().with_name("method");
    assert_eq!(names(a.and(b)), vec!["method"]);
    let s = AstQuery::new(&f).structs();
    assert_eq!(AstQuery::new(&f).functions().and(s).count(), 0);
}

#[test]
fn not_is_always_empty() {
    let f = sample_file();
    assert!(!AstQuery::new(&f).functions().not().has_results());
    assert!(!AstQuery::new(&f).not().has_results());
    assert!(AstQuery::new(&f).functions().has_results());
}

#[test]
fn filter_applies_a_predicate() {
    let f = sample_file();
    let q = AstQuery::new(&f).functions().filter(|n: &AstNode| n.name().starts_with('t'));
    assert_eq!(names(q), vec!["top"]);
}

#[test]
fn node_placeholders() {
    let f = sample_file();
    let nodes = AstQuery::new(&f).functions().collect();
    assert_eq!(nodes[0].snippet(), "fn top(...)");
    assert_eq!(nodes[0].node_type(), NodeType::Function);
    let s = AstQuery::new(&f).structs().collect();
    assert_eq!(s[0].snippet(), "struct Top");
    assert_eq!(AstNode::from_file(&f).name(), "unnamed");
}

#[test]
fn to_findings_uses_fallback_location() {
    let f = sample_file();
    let fs = AstQuery::new(&f).functions().with_name("top").to_findings(Severity::Low, "Found", "a.rs");
    assert_eq!(fs.len(), 1);
    assert_eq!(fs[0].description, "Found in 'top'");
    assert_eq!(fs[0].location.line, 1);
    assert_eq!(fs[0].location.column, None);
    assert_eq!(fs[0].location.file, "a.rs");
    assert_eq!(fs[0].code_snippet.as_deref(), Some("fn top(...)"));
}

#[test]
fn snippet_on_one_line_is_the_column_range() {
    let ex = SpanExtractor::new("let a = 1;\npub fn handler() {}\n".to_string(), "x.rs".to_string());
    assert_eq!(ex.span_to_snippet(sp(2, 4, 2, 6)), "fn");
    assert_eq!(ex.span_to_snippet(sp(2, 0, 2, 100)), "pub fn handler() {}");
    assert_eq!(ex.span_to_snippet(sp(2, 50, 2, 100)), "");
}

#[test]
fn snippet_across_lines_keeps_the_line_count() {
    let src = "fn a() {\n    let x = 1;\n    let y = 2;\n}\n";
    let ex = SpanExtractor::new(src.to_string(), "x.rs".to_string());
    let s = ex.span_to_snippet(sp(1, 3, 4, 1));
    assert_eq!(s, "a() {\n    let x = 1;\n    let y = 2;\n}");
    assert_eq!(s.lines().count(), 4);
}

#[test]
fn snippet_handles_crlf_and_missing_positions() {
    let ex = SpanExtractor::new("ab\r\ncd\r\n".to_string(), "x.rs".to_string());
    assert_eq!(ex.span_to_snippet(sp(1, 0, 2, 2)), "ab\ncd");
    assert_eq!(ex.span_to_snippet(sp(0, 0, 0, 0)), "// Code snippet unavailable");
    assert_eq!(ex.span_to_snippet(sp(1, 0, 3, 0)), "// Code snippet out of bounds");
}

#[test]
fn location_from_span_and_fallback() {
    let ex = SpanExtractor::new("x".to_string(), "src/lib.rs".to_string());
    let l = ex.span_to_location(sp(3, 4, 5, 1));
    assert_eq!((l.line, l.column, l.end_line, l.end_column), (3, Some(5), Some(5), Some(2)));
    assert_eq!(l.file, "src/lib.rs");
    let f = ex.span_to_location(sp(0, 0, 0, 0));
    assert_eq!((f.line, f.column, f.end_line, f.end_column), (1, None, None, None));
}

#[test]
fn location_text_formats() {
    let l = |c, el, ec| Location::new_precise("a.rs".to_string(), 12, c, el, ec);
    assert_eq!(l(Some(5), Some(14), Some(2)).format_location(), "a.rs:12:5-14:2");
    assert_eq!(l(Some(5), Some(12), Some(9)).format_location(), "a.rs:12:5-9");
    assert_eq!(l(Some(5), Some(12), Some(5)).format_location(), "a.rs:12:5");
    assert_eq!(l(Some(5), None, None).format_location(), "a.rs:12:5");
    assert_eq!(l(None, None, None).format_location(), "a.rs:12");
    assert_eq!(Location::new_precise("b".to_string(), 0, Some(100), None, None).format_location(), "b:0:100");
}

#[test]
fn naming_conventions() {
    assert!(is_snake_case("transfer_funds"));
    assert!(!is_snake_case("transferFunds"));
    assert!(!is_snake_case("transfer-funds"));
    assert!(is_pascal_case("TransferFunds"));
    assert!(!is_pascal_case("transferFunds"));
    assert!(!is_pascal_case("Transfer_Funds"));
    assert!(!is_pascal_case(""));
}

#[test]
fn engine_applies_its_configuration() {
    let rule = || RuleBuilder::new().id("r").severity(Severity::Low).query(RuleQuery::UnsafeCode).build();
    let mut e = RuleEngine::default();
    e.add_rule(rule());
    assert_eq!(e.rule_count(), 1);
    let mut c = RuleEngineConfig::default();
    c.ignore_rules = vec!["r".to_string()];
    let mut e = RuleEngine::new(c);
    e.add_rule(rule());
    assert_eq!(e.rule_count(), 0);
    let mut c = RuleEngineConfig::default();
    c.ignore_severities = vec![Severity::Low];
    let mut e = RuleEngine::new(c);
    e.add_rule(rule());
    assert_eq!(e.rule_count(), 0);
    let mut c = RuleEngineConfig::default();
    c.include_rule_types = vec![RuleType::Anchor];
    let mut e = RuleEngine::new(c);
    e.add_rule(rule());
    assert_eq!(e.rule_count(), 0);
}

#[test]
fn builtin_catalogue_has_seven_rules() {
    let mut e = RuleEngine::default();
    e.load_builtin_rules();
    assert_eq!(e.rule_count(), 7);
    let mut c = RuleEngineConfig::default();
    c.ignore_severities = vec![Severity::Medium];
    let mut e = RuleEngine::new(c);
    e.load_builtin_rules();
    assert_eq!(e.rule_count(), 4);
}

#[test]
fn disabled_rule_reports_nothing() {
    let f = sample_file();
    let ex = SpanExtractor::new(String::new(), "x.rs".to_string());
    let on = RuleBuilder::new().title("T").query(RuleQuery::Functions(solana_lint::query::FnTest::MissingErrorHandling)).build();
    assert_eq!(on.check(&f, "x.rs", &ex).len(), 2);
    let off = RuleBuilder::new().enabled(false).query(RuleQuery::Functions(solana_lint::query::FnTest::MissingErrorHandling)).build();
    assert!(off.check(&f, "x.rs", &ex).is_empty());
}

const SOURCE: &str = "#[derive(Accounts)]
pub struct Ctx<'info> { pub authority: AccountInfo<'info> }
pub fn handler(ctx: Context<Ctx>) { let x = 1; let y = 0; let _ = x / y; }
";

fn scenario() -> SourceFile {
    let ctx = StructItem {
        name: "Ctx".to_string(),
        attrs: vec![Attribute { path: "derive".to_string(), is_list: true, tokens: "Accounts".to_string() }],
        fields: vec![Field {
            name: "authority".to_string(),
            ty_name: "AccountInfo".to_string(),
            ty_text: "AccountInfo < 'info >".to_string(),
            attrs: vec![],
        }],
        span: sp(1, 0, 2, 59),
        text: "struct Ctx".to_string(),
    };
    let div = ex(ExprKind::Binary(
        BinOp::Div,
        Box::new(ex(ExprKind::Path(Some("x".to_string())))),
        Box::new(ex(ExprKind::Path(Some("y".to_string())))),
        "x".to_string(),
        "y".to_string(),
    ));
    let body = vec![
        Stmt::Local(Some("x".to_string()), Some(ex(ExprKind::Lit(Lit::Int("1".to_string()))))),
        Stmt::Local(Some("y".to_string()), Some(ex(ExprKind::Lit(Lit::Int("0".to_string()))))),
        Stmt::Local(None, Some(div)),
    ];
    let handler = func("handler", true, vec!["Context < Ctx >"], body, sp(3, 0, 3, 74));
    SourceFile { items: vec![Item::Struct(ctx), Item::Fn(handler)], span: sp(1, 0, 3, 74), text: "file".to_string() }
}

#[test]
fn end_to_end_single_file() {
    let f = scenario();
    let mut e = RuleEngine::default();
    e.load_builtin_rules();
    let fs = e.execute_rules(&f, "lib.rs", SOURCE);
    let has = |sev: Severity, title: &str| fs.iter().any(|x| x.severity == sev && x.description.starts_with(title));
    assert!(has(Severity::High, "Missing Signer Check"));
    assert!(has(Severity::Low, "Anchor Instructions Detection"));
    assert!(has(Severity::Medium, "Division Without Zero Check"));
    assert!(has(Severity::Low, "Missing Error Handling in Public Functions"));
    assert_eq!(fs.len(), 4);
    let div = fs.iter().find(|x| x.description.starts_with("Division")).unwrap();
    assert_eq!(div.description, "Division Without Zero Check in 'handler'. Detects division operations without zero verification");
    assert_eq!(div.location.format_location(), "lib.rs:3:1-75");
    assert_eq!(div.code_snippet.as_deref(), Some("pub fn handler(ctx: Context<Ctx>) { let x = 1; let y = 0; let _ = x / y; }"));
}

#[test]
fn analyzer_filters_ignored_severities_and_counts() {
    let mut options = AnalysisOptions::default();
    options.include_rule_types = vec![RuleType::Solana];
    options.ignore_severities = vec![Severity::Low];
    let a = Analyzer::with_options(options);
    let files = vec![SourceUnit { path: "lib.rs".to_string(), ast: scenario(), source: SOURCE.to_string() }];
    let r = a.analyze_files(&files);
    assert_eq!(r.findings.len(), 2);
    assert_eq!(r.stats.files_analyzed, 1);
    assert_eq!(r.stats.findings_by_severity.get(Severity::High), 1);
    assert_eq!(r.stats.findings_by_severity.get(Severity::Medium), 1);
    assert_eq!(r.stats.findings_by_severity.get(Severity::Low), 0);
}

#[test]
fn context_marks_the_span_lines() {
    let ex = SpanExtractor::new("a\nb\nc\nd\ne\n".to_string(), "x.rs".to_string());
    assert_eq!(ex.extract_context(sp(2, 0, 3, 1), 1), "    1 | a\n\u{2192}   2 | b\n\u{2192}   3 | c\n    4 | d\n");
    assert_eq!(ex.extract_context(sp(1, 0, 1, 1), 0), "\u{2192}   1 | a\n");
    assert_eq!(ex.extract_context(sp(5, 0, 5, 1), 9), "    1 | a\n    2 | b\n    3 | c\n    4 | d\n\u{2192}   5 | e\n");
    assert_eq!(ex.extract_context(sp(0, 0, 0, 0), 2), "// Context unavailable");
}

#[test]
fn definition_signature_of_functions_and_structs() {
    let src = "pub fn handler(\n    ctx: Context<Ctx>,\n) -> Result<()> {\n}\n  pub struct Ctx<'info> {\n  let x = 1;  \n";
    let ex = SpanExtractor::new(src.to_string(), "x.rs".to_string());
    assert_eq!(ex.extract_definition_signature(sp(1, 0, 4, 1)), "pub fn handler( ctx: Context<Ctx>, ) -> Result<()>");
    assert_eq!(ex.extract_definition_signature(sp(5, 2, 5, 3)), "pub struct Ctx<'info>");
    assert_eq!(ex.extract_definition_signature(sp(6, 0, 6, 1)), "let x = 1;");
    assert_eq!(ex.extract_definition_signature(sp(0, 0, 0, 0)), "// Signature unavailable");
    assert_eq!(ex.extract_definition_signature(sp(9, 0, 9, 0)), "// Signature out of bounds");
}

#[test]
fn node_location_and_snippet() {
    let f = scenario();
    let ex = SpanExtractor::new(SOURCE.to_string(), "lib.rs".to_string());
    let nodes = AstQuery::new(&f).structs().collect();
    let l = ex.extract_location(&nodes[0]);
    assert_eq!((l.line, l.column, l.end_line, l.end_column), (1, Some(1), Some(2), Some(60)));
    assert_eq!(ex.extract_snippet(&nodes[0]), SOURCE.lines().take(2).collect::<Vec<_>>().join("\n"));
}

#[test]
fn expression_nodes_compare_by_structure() {
    let call = |n: &str| ex(ExprKind::Call(Box::new(ex(ExprKind::Path(Some(n.to_string())))), vec![ex(ExprKind::Lit(Lit::Int("1".to_string())))]));
    let (a, b, c) = (call("f"), call("f"), call("g"));
    let left = AstQuery::from_nodes(vec![AstNode::from_expression(&a), AstNode::from_expression(&c)]);
    let right = AstQuery::from_nodes(vec![AstNode::from_expression(&b)]);
    let kept = left.and(right).collect();
    assert_eq!(kept.len(), 1);
    assert_eq!(kept[0].node_type(), NodeType::Expression);
    assert_eq!(kept[0].snippet(), "...");
    let fs = AstQuery::from_node(&AstNode::from_expression(&a)).to_findings(Severity::Low, "m", "f.rs");
    assert_eq!((fs[0].description.as_str(), fs[0].location.line), ("m", 1));
}

#[test]
fn signature_trims_unicode_whitespace() {
    let ex = SpanExtractor::new("\u{3000}\tfn f() {\u{a0}\n".to_string(), "x.rs".to_string());
    assert_eq!(ex.extract_definition_signature(sp(1, 0, 1, 1)), "fn f()");
}

#[test]
fn expression_findings_use_the_span_mapper() {
    let src = "fn f() {\n    let q = a / b;\n}\n";
    let div = Expr {
        kind: ExprKind::Binary(
            BinOp::Div,
            Box::new(ex(ExprKind::Path(Some("a".to_string())))),
            Box::new(ex(ExprKind::Path(Some("b".to_string())))),
            "a".to_string(),
            "b".to_string(),
        ),
        span: sp(2, 12, 2, 17),
    };
    let ex_ = SpanExtractor::new(src.to_string(), "f.rs".to_string());
    let fs = AstQuery::from_node(&AstNode::from_expression(&div)).to_findings_with_span_extractor(
        Severity::Medium,
        "T",
        "D",
        "f.rs",
        &ex_,
    );
    assert_eq!(fs[0].code_snippet.as_deref(), Some("a / b"));
    assert_eq!((fs[0].location.line, fs[0].location.column, fs[0].location.end_column), (2, Some(13), Some(18)));
    assert_eq!(fs[0].description, "T: D");
}

fn calls_file() -> SourceFile {
    let call = |n: &str| Stmt::Expr(ex(ExprKind::Call(Box::new(ex(ExprKind::Path(Some(n.to_string())))), vec![])));
    SourceFile {
        items: vec![
            Item::Fn(func("a", true, vec![], vec![call("invoke")], sp(1, 0, 1, 10))),
            Item::Fn(func("b", false, vec![], vec![call("invoke")], sp(2, 0, 2, 10))),
            Item::Fn(func("c", true, vec![], vec![call("other")], sp(3, 0, 3, 10))),
            Item::Struct(strukt("Invoke", sp(4, 0, 4, 10))),
        ],
        span: sp(1, 0, 4, 10),
        text: "file".to_string(),
    }
}

fn names_of(fs: &[solana_lint::analysis::Finding]) -> Vec<String> {
    fs.iter().map(|f| f.description.split('\'').nth(1).unwrap_or("").to_string()).collect()
}

#[test]
fn pipeline_rule_narrows_stage_by_stage() {
    let f = calls_file();
    let ex_ = SpanExtractor::new(String::new(), "x.rs".to_string());
    let q = RuleQuery::Pipeline(Source::Functions, vec![Stage::CallsTo("invoke".to_string()), Stage::PublicFunctions]);
    let rule = RuleBuilder::new().title("T").query(q).build();
    assert_eq!(names_of(&rule.check(&f, "x.rs", &ex_)), vec!["a"]);
    let q = RuleQuery::Pipeline(Source::Structs, vec![Stage::WithName("Invoke".to_string())]);
    let rule = RuleBuilder::new().title("T").query(q).build();
    assert_eq!(names_of(&rule.check(&f, "x.rs", &ex_)), vec!["Invoke"]);
    let q = RuleQuery::Pipeline(Source::Structs, vec![Stage::PublicFunctions]);
    let rule = RuleBuilder::new().title("T").query(q).build();
    assert!(rule.check(&f, "x.rs", &ex_).is_empty());
}

#[test]
fn or_rule_concatenates_targets() {
    let f = calls_file();
    let ex_ = SpanExtractor::new(String::new(), "x.rs".to_string());
    let left = RuleQuery::Pipeline(Source::Functions, vec![Stage::PublicFunctions]);
    let right = RuleQuery::Pipeline(Source::Functions, vec![Stage::WithName("a".to_string())]);
    let rule = RuleBuilder::new().title("T").query(RuleQuery::Or(Box::new(left), Box::new(right))).build();
    assert_eq!(names_of(&rule.check(&f, "x.rs", &ex_)), vec!["a", "c", "a"]);
}
