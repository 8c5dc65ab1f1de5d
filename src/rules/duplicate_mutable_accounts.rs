//! Flags `Accounts` structs with several mutable accounts that nothing keeps apart.
use vstd::prelude::*;
use crate::rules::{Rule, RuleBuilder, RuleQuery, RuleType};
use crate::query::StructTest;
use crate::analysis::Severity;

verus! {

pub fn create_rule() -> (r: Rule)
    ensures
        r.id_view() == "duplicate-mutable-accounts"@,
        r.title_view() == "Duplicate Mutable Accounts"@,
        r.description_view() == "Detects account structs with multiple mutable references to the same account type, which can lead to unexpected behavior"@,
        r.severity_view() == Severity::Medium,
        r.rule_type_view() == RuleType::Solana,
        r.query_view() == RuleQuery::AccountsStructs(StructTest::DuplicateMutable),
        r.enabled_view(),
        r.recommendations_view() == seq![
            "Add constraints to ensure accounts are different: #[account(constraint = account1.key() != account2.key())]"@,
            "Use a single mutable account reference instead of multiple ones when possible"@,
            "Implement explicit validation in your instruction handler to prevent the same account being passed multiple times"@,
            "Consider using Anchor's constraint system to enforce account uniqueness at the framework level"@,
        ],
        r.tags_view() == Seq::<Seq<char>>::empty(),
        r.references_view() == Seq::<Seq<char>>::empty(),
{
    RuleBuilder::new()
        .id("duplicate-mutable-accounts")
        .title("Duplicate Mutable Accounts")
        .description("Detects account structs with multiple mutable references to the same account type, which can lead to unexpected behavior")
        .severity(Severity::Medium)
        .recommendations(vec![
            "Add constraints to ensure accounts are different: #[account(constraint = account1.key() != account2.key())]",
            "Use a single mutable account reference instead of multiple ones when possible",
            "Implement explicit validation in your instruction handler to prevent the same account being passed multiple times",
            "Consider using Anchor's constraint system to enforce account uniqueness at the framework level",
        ])
        .query(RuleQuery::AccountsStructs(StructTest::DuplicateMutable))
        .build()
}

} // verus!
