//! Flags `Accounts` structs with a field that should be a signer and is not checked as one.
use vstd::prelude::*;
use crate::rules::{Rule, RuleBuilder, RuleQuery, RuleType};
use crate::query::StructTest;
use crate::analysis::Severity;

verus! {

pub fn create_rule() -> (r: Rule)
    ensures
        r.id_view() == "missing-signer-check"@,
        r.title_view() == "Missing Signer Check"@,
        r.description_view() == "Detects Anchor account fields that may need signer verification"@,
        r.severity_view() == Severity::High,
        r.rule_type_view() == RuleType::Solana,
        r.query_view() == RuleQuery::AccountsStructs(StructTest::MissingSigner),
        r.enabled_view(),
        r.recommendations_view() == seq![
            "Add signer constraint to account fields that should be signed: #[account(signer)]"@,
            "Use Signer<'info> type for accounts that must be signers of the transaction"@,
            "Verify account ownership and signer status in instruction logic when needed"@,
            "Consider using #[account(constraint = account.key() == signer.key())] for explicit signer validation"@,
            "Review all account fields to ensure proper authorization and access control"@,
        ],
        r.tags_view() == Seq::<Seq<char>>::empty(),
        r.references_view() == Seq::<Seq<char>>::empty(),
{
    RuleBuilder::new()
        .id("missing-signer-check")
        .title("Missing Signer Check")
        .description("Detects Anchor account fields that may need signer verification")
        .severity(Severity::High)
        .recommendations(vec![
            "Add signer constraint to account fields that should be signed: #[account(signer)]",
            "Use Signer<'info> type for accounts that must be signers of the transaction",
            "Verify account ownership and signer status in instruction logic when needed",
            "Consider using #[account(constraint = account.key() == signer.key())] for explicit signer validation",
            "Review all account fields to ensure proper authorization and access control",
        ])
        .query(RuleQuery::AccountsStructs(StructTest::MissingSigner))
        .build()
}

} // verus!
