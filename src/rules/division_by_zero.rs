//! Flags functions that divide by something that may be zero.
use vstd::prelude::*;
use crate::rules::{Rule, RuleBuilder, RuleQuery, RuleType};
use crate::query::FnTest;
use crate::analysis::Severity;

verus! {

pub fn create_rule() -> (r: Rule)
    ensures
        r.id_view() == "solana-division-by-zero"@,
        r.title_view() == "Division Without Zero Check"@,
        r.description_view() == "Detects division operations without zero verification"@,
        r.severity_view() == Severity::Medium,
        r.rule_type_view() == RuleType::Solana,
        r.query_view() == RuleQuery::Functions(FnTest::UnsafeDivision),
        r.enabled_view(),
        r.recommendations_view() == seq![
            "Add explicit zero checks before division operations: if divisor == 0 { return Err(...) }"@,
            "Use checked division methods: checked_div() which returns Option<T>"@,
            "Implement proper error handling for division by zero cases"@,
            "Consider using safe arithmetic operations provided by Anchor or custom error types"@,
            "Validate input parameters at the beginning of instruction handlers"@,
        ],
        r.tags_view() == Seq::<Seq<char>>::empty(),
        r.references_view() == Seq::<Seq<char>>::empty(),
{
    RuleBuilder::new()
        .id("solana-division-by-zero")
        .title("Division Without Zero Check")
        .description("Detects division operations without zero verification")
        .severity(Severity::Medium)
        .recommendations(vec![
            "Add explicit zero checks before division operations: if divisor == 0 { return Err(...) }",
            "Use checked division methods: checked_div() which returns Option<T>",
            "Implement proper error handling for division by zero cases",
            "Consider using safe arithmetic operations provided by Anchor or custom error types",
            "Validate input parameters at the beginning of instruction handlers",
        ])
        .query(RuleQuery::Functions(FnTest::UnsafeDivision))
        .build()
}

} // verus!
