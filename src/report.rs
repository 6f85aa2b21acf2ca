//! The report model: issues, severities, categories, risk levels, and the
//! merge of several component reports into one.

use vstd::prelude::*;
use crate::text::{concat, concat3, contains_string, in_strings};

verus! {

#[derive(Debug, Clone, Copy, PartialEq, Eq, Structural)]
pub enum IssueSeverity {
    Info,
    Warning,
    Error,
    Critical,
}

#[derive(Debug, Clone, Copy, PartialEq, Eq, Structural)]
pub enum IssueCategory {
    FileSystem,
    Network,
    DataExfiltration,
    ProcessExecution,
    DangerousFunction,
    ObfuscatedCode,
    Secrets,
    Other,
}

#[derive(Debug, Clone, Copy, PartialEq, Eq, Structural)]
pub enum SecurityLevel {
    Safe,
    Low,
    Medium,
    High,
    Critical,
}

/// The risk band of a score: `>= 90` Safe, `>= 70` Low, `>= 50` Medium,
/// `>= 30` High, below that Critical.
pub open spec fn level_of(score: int) -> SecurityLevel {
    if score >= 90 {
        SecurityLevel::Safe
    } else if score >= 70 {
        SecurityLevel::Low
    } else if score >= 50 {
        SecurityLevel::Medium
    } else if score >= 30 {
        SecurityLevel::High
    } else {
        SecurityLevel::Critical
    }
}

impl SecurityLevel {
    pub fn from_score(score: i32) -> (r: SecurityLevel)
        ensures
            r == level_of(score as int),
    {
        if score >= 90 {
            SecurityLevel::Safe
        } else if score >= 70 {
            SecurityLevel::Low
        } else if score >= 50 {
            SecurityLevel::Medium
        } else if score >= 30 {
            SecurityLevel::High
        } else {
            SecurityLevel::Critical
        }
    }

    pub fn as_str(&self) -> (r: &'static str)
        ensures
            r@ == match *self {
                SecurityLevel::Safe => "Safe"@,
                SecurityLevel::Low => "Low"@,
                SecurityLevel::Medium => "Medium"@,
                SecurityLevel::High => "High"@,
                SecurityLevel::Critical => "Critical"@,
            },
    {
        match self {
            SecurityLevel::Safe => "Safe",
            SecurityLevel::Low => "Low",
            SecurityLevel::Medium => "Medium",
            SecurityLevel::High => "High",
            SecurityLevel::Critical => "Critical",
        }
    }
}

impl IssueSeverity {
    pub fn as_str(&self) -> (r: &'static str)
        ensures
            r@ == match *self {
                IssueSeverity::Info => "Info"@,
                IssueSeverity::Warning => "Warning"@,
                IssueSeverity::Error => "Error"@,
                IssueSeverity::Critical => "Critical"@,
            },
    {
        match self {
            IssueSeverity::Info => "Info",
            IssueSeverity::Warning => "Warning",
            IssueSeverity::Error => "Error",
            IssueSeverity::Critical => "Critical",
        }
    }
}

/// One finding, as reported to callers.
#[derive(Debug, Clone)]
pub struct SecurityIssue {
    pub severity: IssueSeverity,
    pub category: IssueCategory,
    pub description: String,
    pub line_number: Option<usize>,
    pub code_snippet: Option<String>,
    pub file_path: Option<String>,
    /// Identifier of the rule that produced the finding.
    pub rule_id: String,
}

pub struct IssueView {
    pub severity: IssueSeverity,
    pub category: IssueCategory,
    pub description: Seq<char>,
    pub line_number: Option<usize>,
    pub code_snippet: Option<Seq<char>>,
    pub file_path: Option<Seq<char>>,
    pub rule_id: Seq<char>,
}

pub open spec fn opt_view(o: Option<String>) -> Option<Seq<char>> {
    match o {
        Some(s) => Some(s@),
        None => None,
    }
}

impl View for SecurityIssue {
    type V = IssueView;

    open spec fn view(&self) -> IssueView {
        IssueView {
            severity: self.severity,
            category: self.category,
            description: self.description@,
            line_number: self.line_number,
            code_snippet: opt_view(self.code_snippet),
            file_path: opt_view(self.file_path),
            rule_id: self.rule_id@,
        }
    }
}

/// The outcome of one scan.
#[derive(Debug, Clone)]
pub struct SecurityReport {
    pub skill_id: String,
    pub score: i32,
    pub level: SecurityLevel,
    pub issues: Vec<SecurityIssue>,
    pub recommendations: Vec<String>,
    pub blocked: bool,
    pub hard_trigger_issues: Vec<String>,
    pub scanned_files: Vec<String>,
    pub skipped_files: Vec<String>,
    pub partial_scan: bool,
}

pub open spec fn strings_view(v: Seq<String>) -> Seq<Seq<char>> {
    v.map_values(|s: String| s@)
}

pub open spec fn issues_view(v: Seq<SecurityIssue>) -> Seq<IssueView> {
    v.map_values(|i: SecurityIssue| i@)
}

/// `name/path`.
pub open spec fn under(name: Seq<char>, path: Seq<char>) -> Seq<char> {
    name + "/"@ + path
}

/// An issue of component `name`, its file path put under `name/`.
pub open spec fn issue_under(name: Seq<char>, i: IssueView) -> IssueView {
    IssueView {
        file_path: match i.file_path {
            Some(p) => Some(under(name, p)),
            None => None,
        },
        ..i
    }
}

/// The issues of component `name`, tagged.
pub open spec fn tag_issues(name: Seq<char>, v: Seq<SecurityIssue>) -> Seq<IssueView> {
    Seq::new(v.len(), |t: int| issue_under(name, v[t]@))
}

/// File paths of component `name`, put under it.
pub open spec fn tag_files(name: Seq<char>, v: Seq<String>) -> Seq<Seq<char>> {
    Seq::new(v.len(), |t: int| under(name, v[t]@))
}

/// Hard-trigger messages of component `name`, as `[name] message`.
pub open spec fn tag_triggers(name: Seq<char>, v: Seq<String>) -> Seq<Seq<char>> {
    Seq::new(v.len(), |t: int| "["@ + name + "] "@ + v[t]@)
}

/// The issues of the first `k` component reports, in order.
pub open spec fn merged_issues(rs: Seq<(String, SecurityReport)>, k: int) -> Seq<IssueView>
    decreases k,
{
    if k <= 0 {
        Seq::empty()
    } else {
        merged_issues(rs, k - 1) + tag_issues(rs[k - 1].0@, rs[k - 1].1.issues@)
    }
}

/// The file lists of the first `k` component reports, each under its
/// component's name; `skipped` picks the skipped lists.
pub open spec fn merged_files(rs: Seq<(String, SecurityReport)>, k: int, skipped: bool) -> Seq<
    Seq<char>,
>
    decreases k,
{
    if k <= 0 {
        Seq::empty()
    } else {
        let files = if skipped {
            rs[k - 1].1.skipped_files@
        } else {
            rs[k - 1].1.scanned_files@
        };
        merged_files(rs, k - 1, skipped) + tag_files(rs[k - 1].0@, files)
    }
}

/// The hard-trigger messages of the first `k` reports, each as `[name] message`.
pub open spec fn merged_triggers(rs: Seq<(String, SecurityReport)>, k: int) -> Seq<Seq<char>>
    decreases k,
{
    if k <= 0 {
        Seq::empty()
    } else {
        merged_triggers(rs, k - 1) + tag_triggers(rs[k - 1].0@, rs[k - 1].1.hard_trigger_issues@)
    }
}

pub open spec fn min_score(rs: Seq<(String, SecurityReport)>, k: int) -> int
    decreases k,
{
    if k <= 0 {
        100
    } else {
        let m = min_score(rs, k - 1);
        if (rs[k - 1].1.score as int) < m {
            rs[k - 1].1.score as int
        } else {
            m
        }
    }
}

pub open spec fn any_blocked(rs: Seq<(String, SecurityReport)>) -> bool {
    exists|i: int| 0 <= i < rs.len() && #[trigger] rs[i].1.blocked
}

pub open spec fn any_partial(rs: Seq<(String, SecurityReport)>) -> bool {
    exists|i: int| 0 <= i < rs.len() && #[trigger] rs[i].1.partial_scan
}

/// One of the first `k` component reports recommends `m`.
pub open spec fn recommended(rs: Seq<(String, SecurityReport)>, k: int, m: Seq<char>) -> bool {
    exists|i: int| 0 <= i < k && #[trigger] in_strings(rs[i].1.recommendations@, m)
}

fn under_exec(name: &String, path: &String) -> (r: String)
    ensures
        r@ == under(name@, path@),
{
    concat3(name.as_str(), "/", path.as_str())
}

fn clone_opt(o: &Option<String>) -> (r: Option<String>)
    ensures
        opt_view(r) == opt_view(*o),
{
    match o {
        Some(s) => Some(s.clone()),
        None => None,
    }
}

/// Every part of `r` but its file path equals `i`'s.
fn issue_with_path(i: &SecurityIssue, path: Option<String>) -> (r: SecurityIssue)
    ensures
        r@ == (IssueView { file_path: opt_view(path), ..i@ }),
{
    SecurityIssue {
        severity: i.severity,
        category: i.category,
        description: i.description.clone(),
        line_number: i.line_number,
        code_snippet: clone_opt(&i.code_snippet),
        file_path: path,
        rule_id: i.rule_id.clone(),
    }
}

/// One report for a bundle of components: the lowest score, `blocked` and
/// `partial_scan` when any component has them (or any file was skipped), every
/// issue, file and hard-trigger message tagged with its component's name, and
/// the recommendations of all, each once.
pub fn merge_reports(reports: &Vec<(String, SecurityReport)>, marketplace_name: &str) -> (r:
    SecurityReport)
    ensures
        r.skill_id@ == "marketplace::"@ + marketplace_name@,
        r.score as int == min_score(reports@, reports@.len() as int),
        r.level == level_of(r.score as int),
        r.blocked == any_blocked(reports@),
        issues_view(r.issues@) == merged_issues(reports@, reports@.len() as int),
        strings_view(r.scanned_files@) == merged_files(reports@, reports@.len() as int, false),
        strings_view(r.skipped_files@) == merged_files(reports@, reports@.len() as int, true),
        strings_view(r.hard_trigger_issues@) == merged_triggers(reports@, reports@.len() as int),
        r.partial_scan == (any_partial(reports@) || r.skipped_files@.len() > 0),
        forall|m: Seq<char>|
            #![trigger in_strings(r.recommendations@, m)]
            recommended(reports@, reports@.len() as int, m) <==> in_strings(r.recommendations@, m),
        forall|a: int, b: int|
            0 <= a < b < r.recommendations@.len() ==> #[trigger] r.recommendations@[a]@
                != #[trigger] r.recommendations@[b]@,
{
    let mut issues: Vec<SecurityIssue> = Vec::new();
    let mut triggers: Vec<String> = Vec::new();
    let mut scanned: Vec<String> = Vec::new();
    let mut skipped: Vec<String> = Vec::new();
    let mut recs: Vec<String> = Vec::new();
    let mut score: i32 = 100;
    let mut blocked = false;
    let mut partial = false;
    let mut k: usize = 0;
    while k < reports.len()
        invariant
            0 <= k <= reports@.len(),
            score as int == min_score(reports@, k as int),
            blocked == exists|i: int| 0 <= i < k && #[trigger] reports@[i].1.blocked,
            partial == exists|i: int| 0 <= i < k && #[trigger] reports@[i].1.partial_scan,
            issues_view(issues@) == merged_issues(reports@, k as int),
            strings_view(scanned@) == merged_files(reports@, k as int, false),
            strings_view(skipped@) == merged_files(reports@, k as int, true),
            strings_view(triggers@) == merged_triggers(reports@, k as int),
            forall|m: Seq<char>|
                #![trigger in_strings(recs@, m)]
                recommended(reports@, k as int, m) <==> in_strings(recs@, m),
            forall|a: int, b: int|
                0 <= a < b < recs@.len() ==> #[trigger] recs@[a]@ != #[trigger] recs@[b]@,
        decreases reports.len() - k,
    {
        let name = &reports[k].0;
        let report = &reports[k].1;
        if report.score < score {
            score = report.score;
        }
        if report.blocked {
            blocked = true;
        }
        if report.partial_scan {
            partial = true;
        }
        let ghost issues0 = issues@;
        let mut j: usize = 0;
        while j < report.issues.len()
            invariant
                0 <= j <= report.issues@.len(),
                issues_view(issues@) == issues_view(issues0) + tag_issues(
                    name@,
                    report.issues@.subrange(0, j as int),
                ),
            decreases report.issues.len() - j,
        {
            let issue = &report.issues[j];
            let path = match &issue.file_path {
                Some(p) => Some(under_exec(name, p)),
                None => None,
            };
            let updated = issue_with_path(issue, path);
            let ghost prev = issues@;
            assert(issues_view(prev).len() == prev.len());
            assert(tag_issues(name@, report.issues@.subrange(0, j as int)).len() == j);
            assert(prev.len() == issues0.len() + j);
            issues.push(updated);
            let ghost lhs = issues_view(issues@);
            let ghost rhs = issues_view(issues0) + tag_issues(
                name@,
                report.issues@.subrange(0, j + 1),
            );
            assert(lhs.len() == rhs.len());
            assert forall|t: int| 0 <= t < lhs.len() implies lhs[t] == rhs[t] by {
                if t < prev.len() {
                    assert(issues@[t] == prev[t]);
                    assert(issues_view(prev)[t] == prev[t]@);
                }
            }
            assert(report.issues@.subrange(0, j + 1) == report.issues@.subrange(0, j as int).push(
                report.issues@[j as int],
            ));
            assert(issues_view(issues@) =~= issues_view(issues0) + tag_issues(
                name@,
                report.issues@.subrange(0, j + 1),
            ));
            j = j + 1;
        }
        assert(report.issues@.subrange(0, j as int) == report.issues@);
        let ghost scanned0 = scanned@;
        let mut j: usize = 0;
        while j < report.scanned_files.len()
            invariant
                0 <= j <= report.scanned_files@.len(),
                strings_view(scanned@) == strings_view(scanned0) + tag_files(
                    name@,
                    report.scanned_files@.subrange(0, j as int),
                ),
            decreases report.scanned_files.len() - j,
        {
            let ghost prev = scanned@;
            assert(strings_view(prev).len() == prev.len());
            assert(tag_files(name@, report.scanned_files@.subrange(0, j as int)).len() == j);
            assert(prev.len() == scanned0.len() + j);
            scanned.push(under_exec(name, &report.scanned_files[j]));
            let ghost lhs = strings_view(scanned@);
            let ghost rhs = strings_view(scanned0) + tag_files(
                name@,
                report.scanned_files@.subrange(0, j + 1),
            );
            assert(lhs.len() == rhs.len());
            assert forall|t: int| 0 <= t < lhs.len() implies lhs[t] == rhs[t] by {
                if t < prev.len() {
                    assert(scanned@[t] == prev[t]);
                    assert(strings_view(prev)[t] == prev[t]@);
                } else {
                }
            }
            assert(report.scanned_files@.subrange(0, j + 1) == report.scanned_files@.subrange(
                0,
                j as int,
            ).push(report.scanned_files@[j as int]));
            assert(strings_view(scanned@) =~= strings_view(scanned0) + tag_files(
                name@,
                report.scanned_files@.subrange(0, j + 1),
            ));
            j = j + 1;
        }
        assert(report.scanned_files@.subrange(0, j as int) == report.scanned_files@);
        let ghost skipped0 = skipped@;
        let mut j: usize = 0;
        while j < report.skipped_files.len()
            invariant
                0 <= j <= report.skipped_files@.len(),
                strings_view(skipped@) == strings_view(skipped0) + tag_files(
                    name@,
                    report.skipped_files@.subrange(0, j as int),
                ),
            decreases report.skipped_files.len() - j,
        {
            let ghost prev = skipped@;
            assert(strings_view(prev).len() == prev.len());
            assert(tag_files(name@, report.skipped_files@.subrange(0, j as int)).len() == j);
            assert(prev.len() == skipped0.len() + j);
            skipped.push(under_exec(name, &report.skipped_files[j]));
            let ghost lhs = strings_view(skipped@);
            let ghost rhs = strings_view(skipped0) + tag_files(
                name@,
                report.skipped_files@.subrange(0, j + 1),
            );
            assert(lhs.len() == rhs.len());
            assert forall|t: int| 0 <= t < lhs.len() implies lhs[t] == rhs[t] by {
                if t < prev.len() {
                    assert(skipped@[t] == prev[t]);
                    assert(strings_view(prev)[t] == prev[t]@);
                }
            }
            assert(report.skipped_files@.subrange(0, j + 1) == report.skipped_files@.subrange(
                0,
                j as int,
            ).push(report.skipped_files@[j as int]));
            assert(strings_view(skipped@) =~= strings_view(skipped0) + tag_files(
                name@,
                report.skipped_files@.subrange(0, j + 1),
            ));
            j = j + 1;
        }
        assert(report.skipped_files@.subrange(0, j as int) == report.skipped_files@);
        let ghost triggers0 = triggers@;
        let mut j: usize = 0;
        while j < report.hard_trigger_issues.len()
            invariant
                0 <= j <= report.hard_trigger_issues@.len(),
                strings_view(triggers@) == strings_view(triggers0) + tag_triggers(
                    name@,
                    report.hard_trigger_issues@.subrange(0, j as int),
                ),
            decreases report.hard_trigger_issues.len() - j,
        {
            let tagged = concat3("[", name.as_str(), "] ");
            let msg = concat(tagged.as_str(), report.hard_trigger_issues[j].as_str());
            let ghost prev = triggers@;
            assert(strings_view(prev).len() == prev.len());
            assert(tag_triggers(name@, report.hard_trigger_issues@.subrange(0, j as int)).len() == j);
            assert(prev.len() == triggers0.len() + j);
            triggers.push(msg);
            let ghost lhs = strings_view(triggers@);
            let ghost rhs = strings_view(triggers0) + tag_triggers(
                name@,
                report.hard_trigger_issues@.subrange(0, j + 1),
            );
            assert(lhs.len() == rhs.len());
            assert forall|t: int| 0 <= t < lhs.len() implies lhs[t] == rhs[t] by {
                if t < prev.len() {
                    assert(triggers@[t] == prev[t]);
                    assert(strings_view(prev)[t] == prev[t]@);
                }
            }
            assert(report.hard_trigger_issues@.subrange(0, j + 1)
                == report.hard_trigger_issues@.subrange(0, j as int).push(
                report.hard_trigger_issues@[j as int],
            ));
            assert(strings_view(triggers@) =~= strings_view(triggers0) + tag_triggers(
                name@,
                report.hard_trigger_issues@.subrange(0, j + 1),
            ));
            j = j + 1;
        }
        assert(report.hard_trigger_issues@.subrange(0, j as int) == report.hard_trigger_issues@);
        let ghost recs0 = recs@;
        let mut j: usize = 0;
        while j < report.recommendations.len()
            invariant
                0 <= j <= report.recommendations@.len(),
                forall|m: Seq<char>|
                    #![trigger in_strings(recs@, m)]
                    (in_strings(recs0, m) || in_strings(
                        report.recommendations@.subrange(0, j as int),
                        m,
                    )) <==> in_strings(recs@, m),
                forall|a: int, b: int|
                    0 <= a < b < recs@.len() ==> #[trigger] recs@[a]@ != #[trigger] recs@[b]@,
            decreases report.recommendations.len() - j,
        {
            let rec = &report.recommendations[j];
            let ghost before = recs@;
            if !contains_string(&recs, rec) {
                recs.push(rec.clone());
            }
            let ghost sub = report.recommendations@.subrange(0, j as int);
            let ghost sub1 = report.recommendations@.subrange(0, j + 1);
            assert forall|m: Seq<char>|
                #![trigger in_strings(recs@, m)]
                (in_strings(recs0, m) || in_strings(sub1, m)) <==> in_strings(recs@, m) by {
                if in_strings(sub1, m) {
                    let t = choose|t: int| 0 <= t < sub1.len() && #[trigger] sub1[t]@ == m;
                    if t < j {
                        assert(sub[t] == sub1[t]);
                        assert(in_strings(sub, m));
                    } else if in_strings(before, m) {
                        let u = choose|u: int| 0 <= u < before.len() && #[trigger] before[u]@ == m;
                        assert(recs@[u] == before[u]);
                    } else {
                        assert(recs@[recs@.len() - 1]@ == m);
                    }
                }
                if in_strings(sub, m) {
                    let t = choose|t: int| 0 <= t < sub.len() && #[trigger] sub[t]@ == m;
                    assert(sub1[t] == sub[t]);
                }
                if in_strings(before, m) {
                    let u = choose|u: int| 0 <= u < before.len() && #[trigger] before[u]@ == m;
                    assert(recs@[u] == before[u]);
                }
                if in_strings(recs@, m) {
                    let u = choose|u: int| 0 <= u < recs@.len() && #[trigger] recs@[u]@ == m;
                    if u < before.len() {
                        assert(recs@[u] == before[u]);
                        assert(in_strings(before, m));
                    } else {
                        assert(sub1[j as int] == report.recommendations@[j as int]);
                    }
                }
            }
            j = j + 1;
        }
        assert(report.recommendations@.subrange(0, j as int) == report.recommendations@);
        assert forall|m: Seq<char>|
            #![trigger in_strings(recs@, m)]
            recommended(reports@, k + 1, m) <==> in_strings(recs@, m) by {
            if recommended(reports@, k + 1, m) {
                let i = choose|i: int|
                    0 <= i < k + 1 && #[trigger] in_strings(reports@[i].1.recommendations@, m);
                if i < k {
                    assert(recommended(reports@, k as int, m));
                }
            }
            if in_strings(recs0, m) {
                let i = choose|i: int|
                    0 <= i < k && #[trigger] in_strings(reports@[i].1.recommendations@, m);
                assert(0 <= i < k + 1 && in_strings(reports@[i].1.recommendations@, m));
            }
        }
        k = k + 1;
    }
    let partial_scan = partial || skipped.len() > 0;
    SecurityReport {
        skill_id: concat("marketplace::", marketplace_name),
        score,
        level: SecurityLevel::from_score(score),
        issues,
        recommendations: recs,
        blocked,
        hard_trigger_issues: triggers,
        scanned_files: scanned,
        partial_scan,
        skipped_files: skipped,
    }
}

} // verus!
