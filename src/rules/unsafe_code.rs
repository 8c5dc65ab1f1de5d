//! Flags functions declared `unsafe` or holding an `unsafe` block.
use vstd::prelude::*;
use crate::rules::{Rule, RuleBuilder, RuleQuery, RuleType};
use crate::analysis::Severity;

verus! {

pub fn create_rule() -> (r: Rule)
    ensures
        r.id_view() == "solana-unsafe-code"@,
        r.title_view() == "Unsafe Code Usage"@,
        r.description_view() == "Using unsafe code in Solana programs can lead to security vulnerabilities"@,
        r.severity_view() == Severity::High,
        r.rule_type_view() == RuleType::Solana,
        r.query_view() == RuleQuery::UnsafeCode,
        r.enabled_view(),
        r.recommendations_view() == seq![
            "Avoid using unsafe code in Solana programs unless absolutely necessary"@,
            "If unsafe is required, thoroughly document why it's needed and ensure all invariants are maintained"@,
            "Consider using safe alternatives like checked arithmetic operations"@,
        ],
        r.tags_view() == seq!["security"@, "unsafe"@],
        r.references_view() == seq!["https://doc.rust-lang.org/book/ch20-01-unsafe-rust.html"@],
{
    RuleBuilder::new()
        .id("solana-unsafe-code")
        .title("Unsafe Code Usage")
        .description("Using unsafe code in Solana programs can lead to security vulnerabilities")
        .severity(Severity::High)
        .rule_type(RuleType::Solana)
        .tag("security")
        .tag("unsafe")
        .reference("https://doc.rust-lang.org/book/ch20-01-unsafe-rust.html")
        .recommendations(vec![
            "Avoid using unsafe code in Solana programs unless absolutely necessary",
            "If unsafe is required, thoroughly document why it's needed and ensure all invariants are maintained",
            "Consider using safe alternatives like checked arithmetic operations",
        ])
        .query(RuleQuery::UnsafeCode)
        .build()
}

} // verus!
