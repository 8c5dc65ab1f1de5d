//! Analysis of a batch of parsed files with the rule engine, and its
//! statistics.
use vstd::prelude::*;
use crate::analysis::{Finding, Severity};
use crate::ast::{SourceFile, Span};
use crate::engine::{CatalogueEntry, RuleEngine, RuleEngineConfig, accepts, builtin_catalogue, create_rule_engine, engine_hits, is_entry};
use crate::query::select;
use crate::rules::{Rule, RuleQuery, RuleType, target_finding};
use crate::span_utils::lines_of;

verus! {

pub struct AnalysisOptions {
    pub generate_ast: bool,
    pub custom_templates_path: Option<String>,
    pub ignore_severities: Vec<Severity>,
    pub ignore_rules: Vec<String>,
    pub include_rule_types: Vec<RuleType>,
}

impl Default for AnalysisOptions {
    /// No AST output, no templates, nothing ignored, no rule type included.
    fn default() -> (r: AnalysisOptions)
        ensures
            !r.generate_ast,
            r.custom_templates_path is None,
            r.ignore_severities@.len() == 0,
            r.ignore_rules@.len() == 0,
            r.include_rule_types@.len() == 0,
    {
        AnalysisOptions {
            generate_ast: false,
            custom_templates_path: None,
            ignore_severities: Vec::new(),
            ignore_rules: Vec::new(),
            include_rule_types: Vec::new(),
        }
    }
}

/// The number of findings of each severity.
pub struct SeverityCounts {
    pub high: usize,
    pub medium: usize,
    pub low: usize,
    pub informational: usize,
}

impl SeverityCounts {
    pub open spec fn count(&self, s: Severity) -> nat {
        match s {
            Severity::High => self.high as nat,
            Severity::Medium => self.medium as nat,
            Severity::Low => self.low as nat,
            Severity::Informational => self.informational as nat,
        }
    }

    pub fn get(&self, s: Severity) -> (r: usize)
        ensures
            r == self.count(s),
    {
        match s {
            Severity::High => self.high,
            Severity::Medium => self.medium,
            Severity::Low => self.low,
            Severity::Informational => self.informational,
        }
    }
}

/// The number of findings of severity `s`.
pub open spec fn count_severity(fs: Seq<Finding>, s: Severity) -> nat
    decreases fs.len(),
{
    if fs.len() == 0 {
        0
    } else {
        count_severity(fs.drop_last(), s) + if fs.last().severity == s { 1nat } else { 0nat }
    }
}

pub struct AnalysisStats {
    pub files_analyzed: usize,
    pub rules_executed: usize,
    /// Set by the caller, who owns the clock.
    pub total_time_ms: u64,
    pub findings_by_severity: SeverityCounts,
}

pub struct AnalysisResult {
    pub findings: Vec<Finding>,
    pub stats: AnalysisStats,
}

/// A parsed file with its path and source text.
pub struct SourceUnit {
    pub path: String,
    pub ast: SourceFile,
    pub source: String,
}

/// A reported hit, with the file it is in: the rule, the target's name and
/// span, the file's path and its lines.
pub type FileHit = (Rule, Seq<char>, Span, Seq<char>, Seq<Seq<char>>);

/// What the rules report on each file in turn, without the findings of an
/// ignored severity.
pub open spec fn batch_hits(rules: Seq<Rule>, files: Seq<SourceUnit>, ignore: Seq<Severity>) -> Seq<FileHit>
    decreases files.len(),
{
    if files.len() == 0 {
        Seq::empty()
    } else {
        let u = files.last();
        let hs = engine_hits(rules, u.ast);
        let kept = select(hs, hs.map_values(|h: (Rule, Seq<char>, Span)| !ignore.contains(h.0.severity_view())));
        batch_hits(rules, files.drop_last(), ignore) + kept.map_values(
            |h: (Rule, Seq<char>, Span)| (h.0, h.1, h.2, u.path@, lines_of(u.source@)),
        )
    }
}

pub open spec fn hit_finding(f: Finding, h: FileHit) -> bool {
    target_finding(f, h.1, h.2, h.0.severity_view(), h.0.title_view(), h.0.description_view(), h.3, h.4)
}

proof fn lemma_count_severity_bound(fs: Seq<Finding>, s: Severity)
    ensures
        count_severity(fs, s) <= fs.len(),
    decreases fs.len(),
{
    if fs.len() > 0 {
        lemma_count_severity_bound(fs.drop_last(), s);
    }
}

fn severity_ignored(ignore: &Vec<Severity>, s: Severity) -> (r: bool)
    ensures
        r == ignore@.contains(s),
{
    let mut i: usize = 0;
    while i < ignore.len()
        invariant
            i <= ignore@.len(),
            forall|k: int| 0 <= k < i ==> ignore@[k] != s,
        decreases ignore@.len() - i,
    {
        if ignore[i] == s {
            assert(ignore@[i as int] == s);
            return true;
        }
        i += 1;
    }
    false
}

/// Runs the rule engine over files and gathers findings and statistics.
pub struct Analyzer {
    options: AnalysisOptions,
    rule_engine: RuleEngine,
}

fn copy_severities(v: &Vec<Severity>) -> (r: Vec<Severity>)
    ensures
        r@ == v@,
{
    let mut out: Vec<Severity> = Vec::new();
    let mut i: usize = 0;
    while i < v.len()
        invariant
            i <= v@.len(),
            out@ == v@.take(i as int),
        decreases v@.len() - i,
    {
        out.push(v[i]);
        assert(out@ =~= v@.take(i + 1));
        i += 1;
    }
    assert(v@.take(i as int) =~= v@);
    out
}

fn copy_rule_types(v: &Vec<RuleType>) -> (r: Vec<RuleType>)
    ensures
        r@ == v@,
{
    let mut out: Vec<RuleType> = Vec::new();
    let mut i: usize = 0;
    while i < v.len()
        invariant
            i <= v@.len(),
            out@ == v@.take(i as int),
        decreases v@.len() - i,
    {
        out.push(v[i]);
        assert(out@ =~= v@.take(i + 1));
        i += 1;
    }
    assert(v@.take(i as int) =~= v@);
    out
}

fn copy_strings(v: &Vec<String>) -> (r: Vec<String>)
    ensures
        r@.map_values(|s: String| s@) == v@.map_values(|s: String| s@),
{
    let mut out: Vec<String> = Vec::new();
    let mut i: usize = 0;
    while i < v.len()
        invariant
            i <= v@.len(),
            out@.len() == i,
            forall|k: int| 0 <= k < i ==> (#[trigger] out@[k])@ == v@[k]@,
        decreases v@.len() - i,
    {
        out.push(v[i].clone());
        i += 1;
    }
    assert(out@.map_values(|s: String| s@) =~= v@.map_values(|s: String| s@));
    out
}

fn copy_option_string(v: &Option<String>) -> (r: Option<String>)
    ensures
        r == *v,
{
    match v {
        Some(s) => Some(s.clone()),
        None => None,
    }
}

impl Analyzer {
    pub closed spec fn options_view(&self) -> AnalysisOptions {
        self.options
    }

    pub closed spec fn engine_view(&self) -> RuleEngine {
        self.rule_engine
    }

    /// Default options and an engine with the default configuration and no
    /// rules yet.
    pub fn new() -> (r: Analyzer)
        ensures
            r.engine_view().rules_view().len() == 0,
            r.options_view().ignore_severities@.len() == 0,
    {
        Analyzer { options: AnalysisOptions::default(), rule_engine: create_rule_engine() }
    }

    /// An engine configured from the options, with the built-in catalogue
    /// registered under that configuration.
    pub fn with_options(options: AnalysisOptions) -> (r: Analyzer)
        ensures
            r.options_view() == options,
            r.engine_view().config_view().ignore_severities@ == options.ignore_severities@,
            r.engine_view().config_view().ignore_rules@.map_values(|s: String| s@) == options.ignore_rules@.map_values(
                |s: String| s@,
            ),
            r.engine_view().config_view().include_rule_types@ == options.include_rule_types@,
            ({
                let cat = builtin_catalogue();
                let c = r.engine_view().config_view();
                let added = select(
                    cat,
                    cat.map_values(|e: CatalogueEntry| accepts(c, e.id, e.severity, e.rule_type)),
                );
                &&& r.engine_view().rules_view().len() == added.len()
                &&& forall|k: int| 0 <= k < added.len() ==> #[trigger] is_entry(r.engine_view().rules_view()[k], added[k])
            }),
    {
        let config = RuleEngineConfig {
            custom_templates_path: copy_option_string(&options.custom_templates_path),
            ignore_severities: copy_severities(&options.ignore_severities),
            ignore_rules: copy_strings(&options.ignore_rules),
            include_rule_types: copy_rule_types(&options.include_rule_types),
        };
        let mut rule_engine = RuleEngine::new(config);
        rule_engine.load_builtin_rules();
        if let Some(path) = &options.custom_templates_path {
            rule_engine.load_yaml_rules(path.as_str());
        }
        proof {
            let cat = builtin_catalogue();
            let c = rule_engine.config_view();
            let added = select(
                cat,
                cat.map_values(|e: CatalogueEntry| accepts(c, e.id, e.severity, e.rule_type)),
            );
            assert forall|k: int| 0 <= k < added.len() implies #[trigger] is_entry(rule_engine.rules_view()[k], added[k]) by {
                assert(is_entry(rule_engine.rules_view()[0 + k], added[k]));
            }
        }
        Analyzer { options, rule_engine }
    }

    /// Runs the engine's rules on one file whose source text is given.
    pub fn analyze_file(&self, file_path: &str, ast: &SourceFile, source_code: &str) -> (r: Vec<Finding>)
        ensures
            r@.len() == engine_hits(self.engine_view().rules_view(), *ast).len(),
            forall|i: int|
                0 <= i < r@.len() ==> {
                    let h = #[trigger] engine_hits(self.engine_view().rules_view(), *ast)[i];
                    target_finding(
                        r@[i],
                        h.1,
                        h.2,
                        h.0.severity_view(),
                        h.0.title_view(),
                        h.0.description_view(),
                        file_path@,
                        lines_of(source_code@),
                    )
                },
    {
        self.rule_engine.execute_rules(ast, file_path, source_code)
    }

    /// Analyzes each file in turn and keeps the findings whose severity is
    /// not ignored, counting them by severity. The elapsed time is left at
    /// zero for the caller to fill in.
    pub fn analyze_files(&self, files: &Vec<SourceUnit>) -> (r: AnalysisResult)
        ensures
            ({
                let hs = batch_hits(self.engine_view().rules_view(), files@, self.options_view().ignore_severities@);
                &&& r.findings@.len() == hs.len()
                &&& forall|i: int| 0 <= i < hs.len() ==> #[trigger] hit_finding(r.findings@[i], hs[i])
            }),
            forall|s: Severity| #[trigger] r.stats.findings_by_severity.count(s) == count_severity(r.findings@, s),
            r.stats.files_analyzed == files@.len(),
            r.stats.rules_executed == self.engine_view().rules_view().len(),
            r.stats.total_time_ms == 0,
    {
        let ghost rules = self.engine_view().rules_view();
        let ghost ignore = self.options.ignore_severities@;
        let mut out: Vec<Finding> = Vec::new();
        let mut counts = SeverityCounts { high: 0, medium: 0, low: 0, informational: 0 };
        let mut i: usize = 0;
        assert(files@.take(0) =~= Seq::<SourceUnit>::empty());
        while i < files.len()
            invariant
                i <= files@.len(),
                rules == self.engine_view().rules_view(),
                ignore == self.options.ignore_severities@,
                out@.len() == batch_hits(rules, files@.take(i as int), ignore).len(),
                forall|k: int| 0 <= k < out@.len() ==> #[trigger] hit_finding(out@[k], batch_hits(rules, files@.take(i as int), ignore)[k]),
                forall|s: Severity| #[trigger] counts.count(s) == count_severity(out@, s),
            decreases files@.len() - i,
        {
            let u = &files[i];
            let fs = self.analyze_file(u.path.as_str(), &u.ast, u.source.as_str());
            let ghost hs = engine_hits(rules, u.ast);
            let ghost mask = hs.map_values(|h: (Rule, Seq<char>, Span)| !ignore.contains(h.0.severity_view()));
            let ghost base = out@;
            let ghost prev = batch_hits(rules, files@.take(i as int), ignore);
            let ghost file_lines = lines_of(u.source@);
            let mut j: usize = 0;
            assert(hs.take(0) =~= Seq::<(Rule, Seq<char>, Span)>::empty());
            while j < fs.len()
                invariant
                    j <= fs@.len(),
                    fs@.len() == hs.len(),
                    forall|k: int|
                        0 <= k < fs@.len() ==> {
                            let h = #[trigger] hs[k];
                            target_finding(
                                fs@[k],
                                h.1,
                                h.2,
                                h.0.severity_view(),
                                h.0.title_view(),
                                h.0.description_view(),
                                u.path@,
                                file_lines,
                            )
                        },
                    mask == hs.map_values(|h: (Rule, Seq<char>, Span)| !ignore.contains(h.0.severity_view())),
                    ignore == self.options.ignore_severities@,
                    base.len() == prev.len(),
                    out@.len() == base.len() + select(hs.take(j as int), mask).len(),
                    out@.subrange(0, base.len() as int) == base,
                    forall|k: int| 0 <= k < base.len() ==> #[trigger] hit_finding(base[k], prev[k]),
                    forall|k: int|
                        0 <= k < select(hs.take(j as int), mask).len() ==> {
                            let h = #[trigger] select(hs.take(j as int), mask)[k];
                            hit_finding(out@[base.len() + k], (h.0, h.1, h.2, u.path@, file_lines))
                        },
                    forall|s: Severity| #[trigger] counts.count(s) == count_severity(out@, s),
                decreases fs@.len() - j,
            {
                assert(hs.take(j + 1).drop_last() =~= hs.take(j as int));
                assert(hs.take(j + 1).last() == hs[j as int]);
                let f = &fs[j];
                let sev = f.severity;
                let ghost h = hs[j as int];
                assert(sev == h.0.severity_view());
                if !severity_ignored(&self.options.ignore_severities, sev) {
                    let ghost before = out@;
                    let ghost sel0 = select(hs.take(j as int), mask);
                    proof {
                        lemma_count_severity_bound(before, sev);
                    }
                    let copy = Finding {
                        description: f.description.clone(),
                        severity: f.severity,
                        location: crate::analysis::Location {
                            file: f.location.file.clone(),
                            line: f.location.line,
                            column: f.location.column,
                            end_line: f.location.end_line,
                            end_column: f.location.end_column,
                        },
                        code_snippet: match &f.code_snippet {
                            Some(c) => Some(c.clone()),
                            None => None,
                        },
                    };
                    out.push(copy);
                    let len = out.len();
                    assert(out@.drop_last() =~= before);
                    assert(out@.last().severity == sev);
                    assert(counts.count(sev) == count_severity(before, sev));
                    let ghost c0 = counts;
                    match sev {
                        Severity::High => counts.high = counts.high + 1,
                        Severity::Medium => counts.medium = counts.medium + 1,
                        Severity::Low => counts.low = counts.low + 1,
                        Severity::Informational => counts.informational = counts.informational + 1,
                    }
                    assert forall|s: Severity| #[trigger] counts.count(s) == count_severity(out@, s) by {
                        assert(c0.count(s) == count_severity(before, s));
                    }
                    assert(out@.subrange(0, base.len() as int) =~= base);
                    let ghost sel1 = select(hs.take(j + 1), mask);
                    assert(sel1 == sel0.push(h));
                    assert forall|k: int| 0 <= k < sel1.len() implies {
                        let hh = #[trigger] sel1[k];
                        hit_finding(out@[base.len() + k], (hh.0, hh.1, hh.2, u.path@, file_lines))
                    } by {
                        if k < sel0.len() {
                            assert(sel1[k] == sel0[k]);
                            assert(out@[base.len() + k] == before[base.len() + k]);
                        } else {
                            assert(sel1[k] == h);
                            assert(target_finding(
                                fs@[j as int],
                                h.1,
                                h.2,
                                h.0.severity_view(),
                                h.0.title_view(),
                                h.0.description_view(),
                                u.path@,
                                file_lines,
                            ));
                        }
                    }
                } else {
                    assert(select(hs.take(j + 1), mask) == select(hs.take(j as int), mask));
                }
                j += 1;
            }
            assert(hs.take(j as int) =~= hs);
            assert(files@.take(i + 1).drop_last() =~= files@.take(i as int));
            assert(files@.take(i + 1).last() == *u);
            let ghost sel = select(hs, mask);
            let ghost now = batch_hits(rules, files@.take(i + 1), ignore);
            assert(now == prev + sel.map_values(
                |h: (Rule, Seq<char>, Span)| (h.0, h.1, h.2, u.path@, lines_of(u.source@)),
            ));
            assert forall|k: int| 0 <= k < out@.len() implies #[trigger] hit_finding(out@[k], now[k]) by {
                if k < base.len() {
                    assert(out@[k] == base[k]);
                    assert(now[k] == prev[k]);
                } else {
                    let m = k - base.len();
                    let hh = sel[m];
                    assert(now[k] == (hh.0, hh.1, hh.2, u.path@, file_lines));
                    assert(hit_finding(out@[base.len() + m], (hh.0, hh.1, hh.2, u.path@, file_lines)));
                }
            }
            i += 1;
        }
        assert(files@.take(i as int) =~= files@);
        AnalysisResult {
            findings: out,
            stats: AnalysisStats {
                files_analyzed: files.len(),
                rules_executed: self.rule_engine.rule_count(),
                total_time_ms: 0,
                findings_by_severity: counts,
            },
        }
    }
}

pub fn create_analyzer() -> (r: Analyzer)
    ensures
        r.engine_view().rules_view().len() == 0,
{
    Analyzer::new()
}

pub fn create_analyzer_with_options(options: AnalysisOptions) -> (r: Analyzer)
    ensures
        r.options_view() == options,
        r.engine_view().config_view().ignore_severities@ == options.ignore_severities@,
        r.engine_view().config_view().ignore_rules@.map_values(|s: String| s@) == options.ignore_rules@.map_values(
            |s: String| s@,
        ),
        r.engine_view().config_view().include_rule_types@ == options.include_rule_types@,
        ({
            let cat = builtin_catalogue();
            let c = r.engine_view().config_view();
            let added = select(
                cat,
                cat.map_values(|e: CatalogueEntry| accepts(c, e.id, e.severity, e.rule_type)),
            );
            &&& r.engine_view().rules_view().len() == added.len()
            &&& forall|k: int| 0 <= k < added.len() ==> #[trigger] is_entry(r.engine_view().rules_view()[k], added[k])
        }),
{
    Analyzer::with_options(options)
}

} // verus!
