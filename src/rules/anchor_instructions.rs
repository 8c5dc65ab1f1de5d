//! Reports Anchor instruction handlers: public functions taking a `Context`.
use vstd::prelude::*;
use crate::rules::{Rule, RuleBuilder, RuleQuery, RuleType};
use crate::query::FnTest;
use crate::analysis::Severity;

verus! {

pub fn create_rule() -> (r: Rule)
    ensures
        r.id_view() == "anchor-instructions"@,
        r.title_view() == "Anchor Instructions Detection"@,
        r.description_view() == "Detects functions that are Anchor program instructions (public functions with Context parameter)"@,
        r.severity_view() == Severity::Low,
        r.rule_type_view() == RuleType::Solana,
        r.query_view() == RuleQuery::Functions(FnTest::AnchorInstruction),
        r.enabled_view(),
        r.recommendations_view() == seq![
            "Ensure all instruction handlers return Result<()> for proper error handling"@,
            "Add proper account validation using constraints in your Context struct"@,
            "Consider adding access control checks at the beginning of instruction handlers"@,
            "Use #[access_control] attribute for complex authorization logic"@,
            "Document instruction parameters and expected account states"@,
        ],
        r.tags_view() == Seq::<Seq<char>>::empty(),
        r.references_view() == Seq::<Seq<char>>::empty(),
{
    RuleBuilder::new()
        .id("anchor-instructions")
        .title("Anchor Instructions Detection")
        .description("Detects functions that are Anchor program instructions (public functions with Context parameter)")
        .severity(Severity::Low)
        .recommendations(vec![
            "Ensure all instruction handlers return Result<()> for proper error handling",
            "Add proper account validation using constraints in your Context struct",
            "Consider adding access control checks at the beginning of instruction handlers",
            "Use #[access_control] attribute for complex authorization logic",
            "Document instruction parameters and expected account states",
        ])
        .query(RuleQuery::Functions(FnTest::AnchorInstruction))
        .build()
}

} // verus!
