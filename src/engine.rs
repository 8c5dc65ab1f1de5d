//! The rule engine: a registry of rules filtered by configuration, run
//! against one file at a time.
use vstd::prelude::*;
use crate::analysis::{Finding, Severity};
use crate::ast::{SourceFile, Span};
use crate::query::{FnTest, StructTest};
use crate::rules::{Rule, RuleQuery, RuleType, target_finding};
use crate::span_utils::{SpanExtractor, lines_of};
use crate::text::{string_from, text_eq};

verus! {

/// Which rules the engine takes: none of an ignored severity or identifier,
/// and only those of an included type.
pub struct RuleEngineConfig {
    pub custom_templates_path: Option<String>,
    pub ignore_severities: Vec<Severity>,
    pub ignore_rules: Vec<String>,
    pub include_rule_types: Vec<RuleType>,
}

impl Default for RuleEngineConfig {
    /// Ignores nothing and includes every rule type.
    fn default() -> (r: RuleEngineConfig)
        ensures
            r.custom_templates_path is None,
            r.ignore_severities@.len() == 0,
            r.ignore_rules@.len() == 0,
            r.include_rule_types@ == seq![RuleType::Solana, RuleType::Anchor, RuleType::General],
    {
        RuleEngineConfig {
            custom_templates_path: None,
            ignore_severities: Vec::new(),
            ignore_rules: Vec::new(),
            include_rule_types: vec![RuleType::Solana, RuleType::Anchor, RuleType::General],
        }
    }
}

/// A rule with this identity passes the configuration.
pub open spec fn accepts(c: RuleEngineConfig, id: Seq<char>, severity: Severity, rule_type: RuleType) -> bool {
    &&& !c.ignore_severities@.contains(severity)
    &&& !exists|i: int| 0 <= i < c.ignore_rules@.len() && #[trigger] c.ignore_rules@[i]@ == id
    &&& c.include_rule_types@.contains(rule_type)
}

pub open spec fn accepts_rule(c: RuleEngineConfig, r: Rule) -> bool {
    accepts(c, r.id_view(), r.severity_view(), r.rule_type_view())
}

/// What the catalogue fixes of a built-in rule.
pub ghost struct CatalogueEntry {
    pub id: Seq<char>,
    pub severity: Severity,
    pub rule_type: RuleType,
    pub query: RuleQuery,
    pub title: Seq<char>,
    pub description: Seq<char>,
}

/// The built-in catalogue, in registration order.
pub open spec fn builtin_catalogue() -> Seq<CatalogueEntry> {
    seq![
        CatalogueEntry {
            id: "solana-unsafe-code"@,
            severity: Severity::High,
            rule_type: RuleType::Solana,
            query: RuleQuery::UnsafeCode,
            title: "Unsafe Code Usage"@,
            description: "Using unsafe code in Solana programs can lead to security vulnerabilities"@,
        },
        CatalogueEntry {
            id: "missing-signer-check"@,
            severity: Severity::High,
            rule_type: RuleType::Solana,
            query: RuleQuery::AccountsStructs(StructTest::MissingSigner),
            title: "Missing Signer Check"@,
            description: "Detects Anchor account fields that may need signer verification"@,
        },
        CatalogueEntry {
            id: "duplicate-mutable-accounts"@,
            severity: Severity::Medium,
            rule_type: RuleType::Solana,
            query: RuleQuery::AccountsStructs(StructTest::DuplicateMutable),
            title: "Duplicate Mutable Accounts"@,
            description: "Detects account structs with multiple mutable references to the same account type, which can lead to unexpected behavior"@,
        },
        CatalogueEntry {
            id: "solana-division-by-zero"@,
            severity: Severity::Medium,
            rule_type: RuleType::Solana,
            query: RuleQuery::Functions(FnTest::UnsafeDivision),
            title: "Division Without Zero Check"@,
            description: "Detects division operations without zero verification"@,
        },
        CatalogueEntry {
            id: "owner-check"@,
            severity: Severity::Medium,
            rule_type: RuleType::Solana,
            query: RuleQuery::AccountsStructs(StructTest::OwnerCheck),
            title: "Owner Check Validation"@,
            description: "Detects structs that properly implement owner checks for account validation"@,
        },
        CatalogueEntry {
            id: "solana-missing-error-handling"@,
            severity: Severity::Low,
            rule_type: RuleType::Solana,
            query: RuleQuery::Functions(FnTest::MissingErrorHandling),
            title: "Missing Error Handling in Public Functions"@,
            description: "Detects public functions that don't return Result<T> and may fail silently. In Solana contracts, proper error handling is essential for security and debugging."@,
        },
        CatalogueEntry {
            id: "anchor-instructions"@,
            severity: Severity::Low,
            rule_type: RuleType::Solana,
            query: RuleQuery::Functions(FnTest::AnchorInstruction),
            title: "Anchor Instructions Detection"@,
            description: "Detects functions that are Anchor program instructions (public functions with Context parameter)"@,
        },
    ]
}

/// A rule is the enabled catalogue entry `e`.
pub open spec fn is_entry(r: Rule, e: CatalogueEntry) -> bool {
    &&& r.id_view() == e.id
    &&& r.severity_view() == e.severity
    &&& r.rule_type_view() == e.rule_type
    &&& r.query_view() == e.query
    &&& r.title_view() == e.title
    &&& r.description_view() == e.description
    &&& r.enabled_view()
}

fn builtin_rule(i: usize) -> (r: Rule)
    requires
        i < 7,
    ensures
        is_entry(r, builtin_catalogue()[i as int]),
{
    if i == 0 {
        crate::rules::unsafe_code::create_rule()
    } else if i == 1 {
        crate::rules::missing_signer_check::create_rule()
    } else if i == 2 {
        crate::rules::duplicate_mutable_accounts::create_rule()
    } else if i == 3 {
        crate::rules::division_by_zero::create_rule()
    } else if i == 4 {
        crate::rules::owner_check::create_rule()
    } else if i == 5 {
        crate::rules::missing_error_handling::create_rule()
    } else {
        crate::rules::anchor_instructions::create_rule()
    }
}

/// What the rules report on a file, rule after rule: the rule and the name
/// and span of each target.
pub open spec fn engine_hits(rules: Seq<Rule>, file: SourceFile) -> Seq<(Rule, Seq<char>, Span)>
    decreases rules.len(),
{
    if rules.len() == 0 {
        Seq::empty()
    } else {
        let r = rules.last();
        engine_hits(rules.drop_last(), file) + r.hits(file).map_values(|t: (Seq<char>, Span)| (r, t.0, t.1))
    }
}

/// Holds the rules that passed the configuration.
pub struct RuleEngine {
    rules: Vec<Rule>,
    config: RuleEngineConfig,
}

impl RuleEngine {
    pub closed spec fn rules_view(&self) -> Seq<Rule> {
        self.rules@
    }

    pub closed spec fn config_view(&self) -> RuleEngineConfig {
        self.config
    }

    pub fn new(config: RuleEngineConfig) -> (r: RuleEngine)
        ensures
            r.rules_view().len() == 0,
            r.config_view() == config,
    {
        RuleEngine { rules: Vec::new(), config }
    }

    pub fn default() -> (r: RuleEngine)
        ensures
            r.rules_view().len() == 0,
            r.config_view().ignore_severities@.len() == 0,
            r.config_view().ignore_rules@.len() == 0,
            r.config_view().include_rule_types@ == seq![RuleType::Solana, RuleType::Anchor, RuleType::General],
    {
        RuleEngine::new(RuleEngineConfig::default())
    }

    fn accepts_exec(&self, rule: &Rule) -> (r: bool)
        ensures
            r == accepts_rule(self.config, *rule),
    {
        let sev = rule.severity();
        let mut i: usize = 0;
        while i < self.config.ignore_severities.len()
            invariant
                i <= self.config.ignore_severities@.len(),
                sev == rule.severity_view(),
                forall|k: int| 0 <= k < i ==> self.config.ignore_severities@[k] != sev,
            decreases self.config.ignore_severities@.len() - i,
        {
            if self.config.ignore_severities[i] == sev {
                assert(self.config.ignore_severities@[i as int] == sev);
                return false;
            }
            i += 1;
        }
        let id = rule.id();
        let mut j: usize = 0;
        while j < self.config.ignore_rules.len()
            invariant
                j <= self.config.ignore_rules@.len(),
                sev == rule.severity_view(),
                id@ == rule.id_view(),
                !self.config.ignore_severities@.contains(sev),
                forall|k: int| 0 <= k < j ==> #[trigger] self.config.ignore_rules@[k]@ != id@,
            decreases self.config.ignore_rules@.len() - j,
        {
            if text_eq(self.config.ignore_rules[j].as_str(), id) {
                assert(self.config.ignore_rules@[j as int]@ == id@);
                return false;
            }
            j += 1;
        }
        let ty = rule.rule_type();
        let mut k: usize = 0;
        while k < self.config.include_rule_types.len()
            invariant
                k <= self.config.include_rule_types@.len(),
                sev == rule.severity_view(),
                id@ == rule.id_view(),
                ty == rule.rule_type_view(),
                !self.config.ignore_severities@.contains(sev),
                forall|m: int| 0 <= m < self.config.ignore_rules@.len() ==> #[trigger] self.config.ignore_rules@[m]@ != id@,
                forall|m: int| 0 <= m < k ==> self.config.include_rule_types@[m] != ty,
            decreases self.config.include_rule_types@.len() - k,
        {
            if self.config.include_rule_types[k] == ty {
                assert(self.config.include_rule_types@[k as int] == ty);
                return true;
            }
            k += 1;
        }
        false
    }

    /// Keeps the rule if the configuration accepts it, and drops it otherwise.
    pub fn add_rule(&mut self, rule: Rule)
        ensures
            final(self).config_view() == old(self).config_view(),
            final(self).rules_view() == if accepts_rule(old(self).config_view(), rule) {
                old(self).rules_view().push(rule)
            } else {
                old(self).rules_view()
            },
    {
        if self.accepts_exec(&rule) {
            self.rules.push(rule);
        }
    }

    pub fn rule_count(&self) -> (r: usize)
        ensures
            r == self.rules_view().len(),
    {
        self.rules.len()
    }

    /// Registers the built-in catalogue, each rule subject to the
    /// configuration, in catalogue order.
    pub fn load_builtin_rules(&mut self)
        ensures
            final(self).config_view() == old(self).config_view(),
            ({
                let cat = builtin_catalogue();
                let added = crate::query::select(
                    cat,
                    cat.map_values(|e: CatalogueEntry| accepts(old(self).config_view(), e.id, e.severity, e.rule_type)),
                );
                let n = old(self).rules_view().len();
                &&& final(self).rules_view().len() == n + added.len()
                &&& final(self).rules_view().subrange(0, n as int) == old(self).rules_view()
                &&& forall|k: int| 0 <= k < added.len() ==> #[trigger] is_entry(final(self).rules_view()[n + k], added[k])
            }),
    {
        let ghost cat = builtin_catalogue();
        let ghost mask = cat.map_values(|e: CatalogueEntry| accepts(self.config, e.id, e.severity, e.rule_type));
        let ghost start = self.rules@;
        let ghost n = start.len();
        let mut i: usize = 0;
        assert(self.rules@.subrange(0, n as int) =~= start);
        while i < 7
            invariant
                i <= 7,
                cat == builtin_catalogue(),
                mask == cat.map_values(|e: CatalogueEntry| accepts(self.config, e.id, e.severity, e.rule_type)),
                self.config == old(self).config,
                n == start.len(),
                start == old(self).rules@,
                self.rules@.len() == n + crate::query::select(cat.take(i as int), mask).len(),
                self.rules@.subrange(0, n as int) == start,
                forall|k: int|
                    0 <= k < crate::query::select(cat.take(i as int), mask).len() ==> #[trigger] is_entry(
                        self.rules@[n + k],
                        crate::query::select(cat.take(i as int), mask)[k],
                    ),
            decreases 7 - i,
        {
            assert(cat.take(i + 1).drop_last() =~= cat.take(i as int));
            assert(cat.take(i + 1).last() == cat[i as int]);
            let ghost before = self.rules@;
            let rule = builtin_rule(i);
            self.add_rule(rule);
            assert(self.rules@.subrange(0, n as int) =~= start);
            let ghost sel = crate::query::select(cat.take(i + 1), mask);
            assert forall|k: int| 0 <= k < sel.len() implies #[trigger] is_entry(self.rules@[n + k], sel[k]) by {
                if n + k < before.len() {
                    assert(self.rules@[n + k] == before[n + k]);
                }
            }
            i += 1;
        }
        assert(cat.take(7) =~= cat);
    }

    /// Declarative rule definitions are not supported yet: nothing is loaded.
    pub fn load_yaml_rules(&mut self, templates_path: &str)
        ensures
            final(self).rules_view() == old(self).rules_view(),
            final(self).config_view() == old(self).config_view(),
    {
    }

    /// Runs every registered rule on a file, in registration order, and
    /// gathers their findings.
    pub fn execute_rules(&self, ast: &SourceFile, file_path: &str, source_code: &str) -> (r: Vec<Finding>)
        ensures
            r@.len() == engine_hits(self.rules_view(), *ast).len(),
            forall|i: int|
                0 <= i < r@.len() ==> {
                    let h = #[trigger] engine_hits(self.rules_view(), *ast)[i];
                    target_finding(
                        r@[i],
                        h.1,
                        h.2,
                        h.0.severity_view(),
                        h.0.title_view(),
                        h.0.description_view(),
                        file_path@,
                        lines_of(source_code@),
                    )
                },
    {
        let ex = SpanExtractor::new(string_from(source_code), string_from(file_path));
        let mut out: Vec<Finding> = Vec::new();
        let mut i: usize = 0;
        assert(self.rules@.take(0) =~= Seq::<Rule>::empty());
        while i < self.rules.len()
            invariant
                i <= self.rules@.len(),
                ex.wf(),
                ex.line_views() == lines_of(source_code@),
                ex.file() == file_path@,
                ex.source() == source_code@,
                out@.len() == engine_hits(self.rules@.take(i as int), *ast).len(),
                forall|k: int|
                    0 <= k < out@.len() ==> {
                        let h = #[trigger] engine_hits(self.rules@.take(i as int), *ast)[k];
                        target_finding(
                            out@[k],
                            h.1,
                            h.2,
                            h.0.severity_view(),
                            h.0.title_view(),
                            h.0.description_view(),
                            file_path@,
                            lines_of(source_code@),
                        )
                    },
            decreases self.rules@.len() - i,
        {
            let ghost before = out@;
            let rule = &self.rules[i];
            let mut found = rule.check(ast, file_path, &ex);
            let ghost fv = found@;
            out.append(&mut found);
            assert(self.rules@.take(i + 1).drop_last() =~= self.rules@.take(i as int));
            assert(self.rules@.take(i + 1).last() == *rule);
            let ghost hs = engine_hits(self.rules@.take(i + 1), *ast);
            let ghost h0 = engine_hits(self.rules@.take(i as int), *ast);
            assert(hs == h0 + rule.hits(*ast).map_values(|t: (Seq<char>, Span)| (*rule, t.0, t.1)));
            assert forall|k: int| 0 <= k < out@.len() implies {
                let h = #[trigger] hs[k];
                target_finding(
                    out@[k],
                    h.1,
                    h.2,
                    h.0.severity_view(),
                    h.0.title_view(),
                    h.0.description_view(),
                    file_path@,
                    lines_of(source_code@),
                )
            } by {
                if k < before.len() {
                    assert(out@[k] == before[k]);
                    assert(hs[k] == h0[k]);
                    let h = h0[k];
                    assert(target_finding(
                        before[k],
                        h.1,
                        h.2,
                        h.0.severity_view(),
                        h.0.title_view(),
                        h.0.description_view(),
                        file_path@,
                        lines_of(source_code@),
                    ));
                } else {
                    let j = k - before.len();
                    assert(out@[k] == fv[j]);
                    assert(hs[k] == (*rule, rule.hits(*ast)[j].0, rule.hits(*ast)[j].1));
                    assert(target_finding(
                        fv[j],
                        rule.hits(*ast)[j].0,
                        rule.hits(*ast)[j].1,
                        rule.severity_view(),
                        rule.title_view(),
                        rule.description_view(),
                        ex.file(),
                        ex.line_views(),
                    ));
                }
            }
            i += 1;
        }
        assert(self.rules@.take(i as int) =~= self.rules@);
        out
    }
}

pub fn create_rule_engine() -> (r: RuleEngine)
    ensures
        r.rules_view().len() == 0,
        r.config_view().ignore_severities@.len() == 0,
        r.config_view().ignore_rules@.len() == 0,
        r.config_view().include_rule_types@ == seq![RuleType::Solana, RuleType::Anchor, RuleType::General],
{
    RuleEngine::default()
}

pub fn create_rule_engine_with_config(config: RuleEngineConfig) -> (r: RuleEngine)
    ensures
        r.rules_view().len() == 0,
        r.config_view() == config,
{
    RuleEngine::new(config)
}

} // verus!
