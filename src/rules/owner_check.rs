//! Reports `Accounts` structs that carry owner or address checks on their fields.
use vstd::prelude::*;
use crate::rules::{Rule, RuleBuilder, RuleQuery, RuleType};
use crate::query::StructTest;
use crate::analysis::Severity;

verus! {

pub fn create_rule() -> (r: Rule)
    ensures
        r.id_view() == "owner-check"@,
        r.title_view() == "Owner Check Validation"@,
        r.description_view() == "Detects structs that properly implement owner checks for account validation"@,
        r.severity_view() == Severity::Medium,
        r.rule_type_view() == RuleType::Solana,
        r.query_view() == RuleQuery::AccountsStructs(StructTest::OwnerCheck),
        r.enabled_view(),
        r.recommendations_view() == seq![
            "Add explicit owner validation in your account struct using #[account(constraint = account.owner == expected_owner)] or similar patterns"@,
            "Use Anchor's built-in Account<'info, T> wrapper which automatically validates the account owner"@,
            "Implement manual owner checks in your instruction handler before processing the account"@,
            "Consider using Anchor's #[account(owner = program_id)] constraint for program-owned accounts"@,
        ],
        r.tags_view() == Seq::<Seq<char>>::empty(),
        r.references_view() == Seq::<Seq<char>>::empty(),
{
    RuleBuilder::new()
        .id("owner-check")
        .title("Owner Check Validation")
        .description("Detects structs that properly implement owner checks for account validation")
        .severity(Severity::Medium)
        .recommendations(vec![
            "Add explicit owner validation in your account struct using #[account(constraint = account.owner == expected_owner)] or similar patterns",
            "Use Anchor's built-in Account<'info, T> wrapper which automatically validates the account owner",
            "Implement manual owner checks in your instruction handler before processing the account",
            "Consider using Anchor's #[account(owner = program_id)] constraint for program-owned accounts",
        ])
        .query(RuleQuery::AccountsStructs(StructTest::OwnerCheck))
        .build()
}

} // verus!
