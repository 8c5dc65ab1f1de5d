//! Flags public functions that do not return a `Result`.
use vstd::prelude::*;
use crate::rules::{Rule, RuleBuilder, RuleQuery, RuleType};
use crate::query::FnTest;
use crate::analysis::Severity;

verus! {

pub fn create_rule() -> (r: Rule)
    ensures
        r.id_view() == "solana-missing-error-handling"@,
        r.title_view() == "Missing Error Handling in Public Functions"@,
        r.description_view() == "Detects public functions that don't return Result<T> and may fail silently. In Solana contracts, proper error handling is essential for security and debugging."@,
        r.severity_view() == Severity::Low,
        r.rule_type_view() == RuleType::Solana,
        r.query_view() == RuleQuery::Functions(FnTest::MissingErrorHandling),
        r.enabled_view(),
        r.recommendations_view() == seq![
            "Change function return type to Result<T, YourErrorType> to handle potential failures"@,
            "Use Anchor's Result<()> for instruction handlers to properly propagate errors"@,
            "Implement custom error types using #[error_code] for better error reporting"@,
            "Add proper error handling with ? operator or explicit error returns"@,
            "Consider using anchor_lang::Result for Anchor-specific error handling"@,
        ],
        r.tags_view() == seq!["error-handling"@, "best-practices"@],
        r.references_view() == Seq::<Seq<char>>::empty(),
{
    RuleBuilder::new()
        .id("solana-missing-error-handling")
        .title("Missing Error Handling in Public Functions")
        .description("Detects public functions that don't return Result<T> and may fail silently. In Solana contracts, proper error handling is essential for security and debugging.")
        .severity(Severity::Low)
        .rule_type(RuleType::Solana)
        .tag("error-handling")
        .tag("best-practices")
        .recommendations(vec![
            "Change function return type to Result<T, YourErrorType> to handle potential failures",
            "Use Anchor's Result<()> for instruction handlers to properly propagate errors",
            "Implement custom error types using #[error_code] for better error reporting",
            "Add proper error handling with ? operator or explicit error returns",
            "Consider using anchor_lang::Result for Anchor-specific error handling",
        ])
        .query(RuleQuery::Functions(FnTest::MissingErrorHandling))
        .build()
}

} // verus!
