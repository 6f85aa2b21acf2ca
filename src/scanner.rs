//! The security scanner: per-line rule evaluation over decoded text, decay
//! scoring of the matches, and the report of a single text or of a whole
//! file tree handed over as a list of entries.

use vstd::prelude::*;
use crate::text::{chars_of, concat, concat3};
use crate::lines::{
    decimal, decimal_string, eq_ascii_nocase, file_name, file_name_of, same_ignoring_ascii_case,
    split_lines, text_lines,
};
use crate::report::{
    level_of, issues_view, opt_view, strings_view, IssueCategory, IssueSeverity, IssueView,
    SecurityIssue, SecurityLevel, SecurityReport,
};
use crate::rules::{
    builtin_patterns, builtin_rules, default_rules, lemma_builtin_ids_distinct, set_compiles, fires, group_category, report_category, severity_of, category_severity, Rule,
    RuleTable,
};
use crate::scoring::{
    decay_score, decay_score_of, lemma_fired_rule_costs_weight, lemma_first_files_cost_weights,
    lemma_more_files_never_raise_score, lemma_only_rule_fired,
};
use crate::decoder::{decode_text, decode_text_bytes};

verus! {

/// Whether `name` is the skill manifest (`SKILL.md`, any ASCII case).
pub open spec fn is_manifest(name: Seq<char>) -> bool {
    eq_ascii_nocase(name, "SKILL.md"@)
}

/// Index of the last `.` in `name`, or -1.
pub open spec fn last_dot(p: Seq<char>, j: int) -> int
    decreases j,
{
    if j <= 0 || j > p.len() {
        -1
    } else if p[j - 1] == '.' {
        j - 1
    } else {
        last_dot(p, j - 1)
    }
}

/// The extension of `name` (after its last `.`), empty when it has none.
pub open spec fn extension(name: Seq<char>) -> Seq<char> {
    let d = last_dot(name, name.len() as int);
    if d < 0 {
        Seq::empty()
    } else {
        name.subrange(d + 1, name.len() as int)
    }
}

/// The extensions of script and source files.
pub open spec fn is_code_ext(e: Seq<char>) -> bool {
    eq_ascii_nocase(e, "py"@) || eq_ascii_nocase(e, "js"@) || eq_ascii_nocase(e, "ts"@)
        || eq_ascii_nocase(e, "mjs"@) || eq_ascii_nocase(e, "cjs"@) || eq_ascii_nocase(e, "jsx"@)
        || eq_ascii_nocase(e, "tsx"@) || eq_ascii_nocase(e, "sh"@) || eq_ascii_nocase(e, "bash"@)
        || eq_ascii_nocase(e, "zsh"@) || eq_ascii_nocase(e, "ps1"@) || eq_ascii_nocase(e, "rb"@)
        || eq_ascii_nocase(e, "pl"@) || eq_ascii_nocase(e, "php"@) || eq_ascii_nocase(e, "go"@)
        || eq_ascii_nocase(e, "rs"@) || eq_ascii_nocase(e, "java"@) || eq_ascii_nocase(e, "lua"@)
        || eq_ascii_nocase(e, "bat"@) || eq_ascii_nocase(e, "cmd"@)
}

pub open spec fn is_code(name: Seq<char>) -> bool {
    is_code_ext(extension(name))
}

/// `readme.md` or `readme.<locale>.md`, any ASCII case.
pub open spec fn is_readme(name: Seq<char>) -> bool {
    eq_ascii_nocase(name, "readme.md"@) || (name.len() > 10 && eq_ascii_nocase(
        name.subrange(0, 7),
        "readme."@,
    ) && eq_ascii_nocase(name.subrange(name.len() - 3, name.len() as int), ".md"@))
}

fn extension_of(name: &Vec<char>) -> (r: Vec<char>)
    ensures
        r@ == extension(name@),
{
    let n = name.len();
    let mut j: usize = n;
    while j > 0 && name[j - 1] != '.'
        invariant
            0 <= j <= n == name@.len(),
            last_dot(name@, n as int) == last_dot(name@, j as int),
        decreases j,
    {
        j = j - 1;
    }
    let mut out: Vec<char> = Vec::new();
    if j == 0 {
        return out;
    }
    let mut k: usize = j;
    while k < n
        invariant
            j <= k <= n == name@.len(),
            out@ == name@.subrange(j as int, k as int),
        decreases n - k,
    {
        out.push(name[k]);
        assert(name@.subrange(j as int, k + 1) == name@.subrange(j as int, k as int).push(
            name@[k as int],
        ));
        k = k + 1;
    }
    out
}

pub fn is_code_file(name: &Vec<char>) -> (r: bool)
    ensures
        r == is_code(name@),
{
    let e = extension_of(name);
    same_ignoring_ascii_case(&e, "py") || same_ignoring_ascii_case(&e, "js")
        || same_ignoring_ascii_case(&e, "ts") || same_ignoring_ascii_case(&e, "mjs")
        || same_ignoring_ascii_case(&e, "cjs") || same_ignoring_ascii_case(&e, "jsx")
        || same_ignoring_ascii_case(&e, "tsx") || same_ignoring_ascii_case(&e, "sh")
        || same_ignoring_ascii_case(&e, "bash") || same_ignoring_ascii_case(&e, "zsh")
        || same_ignoring_ascii_case(&e, "ps1") || same_ignoring_ascii_case(&e, "rb")
        || same_ignoring_ascii_case(&e, "pl") || same_ignoring_ascii_case(&e, "php")
        || same_ignoring_ascii_case(&e, "go") || same_ignoring_ascii_case(&e, "rs")
        || same_ignoring_ascii_case(&e, "java") || same_ignoring_ascii_case(&e, "lua")
        || same_ignoring_ascii_case(&e, "bat") || same_ignoring_ascii_case(&e, "cmd")
}

pub fn is_manifest_file(name: &Vec<char>) -> (r: bool)
    ensures
        r == is_manifest(name@),
{
    same_ignoring_ascii_case(name, "SKILL.md")
}

fn slice_chars(s: &Vec<char>, lo: usize, hi: usize) -> (r: Vec<char>)
    requires
        lo <= hi <= s@.len(),
    ensures
        r@ == s@.subrange(lo as int, hi as int),
{
    let mut out: Vec<char> = Vec::new();
    let mut k: usize = lo;
    while k < hi
        invariant
            lo <= k <= hi <= s@.len(),
            out@ == s@.subrange(lo as int, k as int),
        decreases hi - k,
    {
        out.push(s[k]);
        assert(s@.subrange(lo as int, k + 1) == s@.subrange(lo as int, k as int).push(
            s@[k as int],
        ));
        k = k + 1;
    }
    out
}

pub fn is_readme_file(name: &Vec<char>) -> (r: bool)
    ensures
        r == is_readme(name@),
{
    if same_ignoring_ascii_case(name, "readme.md") {
        return true;
    }
    let n = name.len();
    if n <= 10 {
        return false;
    }
    let head = slice_chars(name, 0, 7);
    let tail = slice_chars(name, n - 3, n);
    same_ignoring_ascii_case(&head, "readme.") && same_ignoring_ascii_case(&tail, ".md")
}

/// The issue for rule `r` reporting line `lineno` (from 1).
pub open spec fn hit_issue(r: Rule, lineno: int, line: Seq<char>, path: Seq<char>) -> IssueView {
    IssueView {
        severity: r.severity,
        category: group_category(r.group),
        description: r.name@,
        line_number: Some(lineno as usize),
        code_snippet: Some(line),
        file_path: Some(path),
        rule_id: r.id@,
    }
}

/// The hard-trigger message for rule `r` at `path:lineno`.
pub open spec fn hit_message(r: Rule, lineno: int, path: Seq<char>) -> Seq<char> {
    r.name@ + " ("@ + path + ":"@ + decimal(lineno as nat) + ")"@
}

/// Issues of the first `k` rules on one line.
pub open spec fn line_issues(
    rules: Seq<Rule>,
    k: int,
    line: Seq<char>,
    lineno: int,
    path: Seq<char>,
    m: bool,
    c: bool,
) -> Seq<IssueView>
    decreases k,
{
    if k <= 0 {
        Seq::empty()
    } else {
        line_issues(rules, k - 1, line, lineno, path, m, c) + if fires(rules[k - 1], line, m, c) {
            seq![hit_issue(rules[k - 1], lineno, line, path)]
        } else {
            Seq::empty()
        }
    }
}

/// Hard-trigger messages of the first `k` rules on one line.
pub open spec fn line_messages(
    rules: Seq<Rule>,
    k: int,
    line: Seq<char>,
    lineno: int,
    path: Seq<char>,
    m: bool,
    c: bool,
) -> Seq<Seq<char>>
    decreases k,
{
    if k <= 0 {
        Seq::empty()
    } else {
        line_messages(rules, k - 1, line, lineno, path, m, c) + if fires(rules[k - 1], line, m, c)
            && rules[k - 1].hard_trigger {
            seq![hit_message(rules[k - 1], lineno, path)]
        } else {
            Seq::empty()
        }
    }
}

/// Issues of the first `n` lines, line by line and rule by rule.
pub open spec fn text_issues(
    rules: Seq<Rule>,
    lines: Seq<Seq<char>>,
    n: int,
    path: Seq<char>,
    m: bool,
    c: bool,
) -> Seq<IssueView>
    decreases n,
{
    if n <= 0 {
        Seq::empty()
    } else {
        text_issues(rules, lines, n - 1, path, m, c) + line_issues(
            rules,
            rules.len() as int,
            lines[n - 1],
            n,
            path,
            m,
            c,
        )
    }
}

/// Hard-trigger messages of the first `n` lines.
pub open spec fn text_messages(
    rules: Seq<Rule>,
    lines: Seq<Seq<char>>,
    n: int,
    path: Seq<char>,
    m: bool,
    c: bool,
) -> Seq<Seq<char>>
    decreases n,
{
    if n <= 0 {
        Seq::empty()
    } else {
        text_messages(rules, lines, n - 1, path, m, c) + line_messages(
            rules,
            rules.len() as int,
            lines[n - 1],
            n,
            path,
            m,
            c,
        )
    }
}

/// Rule `r` reports one of the first `n` lines.
pub open spec fn fired_upto(r: Rule, lines: Seq<Seq<char>>, n: int, m: bool, c: bool) -> bool
    decreases n,
{
    if n <= 0 {
        false
    } else {
        fired_upto(r, lines, n - 1, m, c) || fires(r, lines[n - 1], m, c)
    }
}

/// What scanning one decoded file yields.
pub struct TextScan {
    pub issues: Vec<SecurityIssue>,
    pub messages: Vec<String>,
    pub fired: Vec<bool>,
}

fn hit_issue_exec(r: &Rule, lineno: usize, line: &String, path: &String) -> (i: SecurityIssue)
    ensures
        i@ == hit_issue(*r, lineno as int, line@, path@),
{
    SecurityIssue {
        severity: r.severity,
        category: report_category(r.group),
        description: r.name.clone(),
        line_number: Some(lineno),
        code_snippet: Some(line.clone()),
        file_path: Some(path.clone()),
        rule_id: r.id.clone(),
    }
}

fn hit_message_exec(r: &Rule, lineno: usize, path: &String) -> (s: String)
    ensures
        s@ == hit_message(*r, lineno as int, path@),
{
    let a = concat3(r.name.as_str(), " (", path.as_str());
    let d = decimal_string(lineno);
    let b = concat3(a.as_str(), ":", d.as_str());
    concat(b.as_str(), ")")
}

/// Evaluates every rule on every line of a decoded file.
pub fn scan_lines(table: &RuleTable, lines: &Vec<String>, path: &String, m: bool, c: bool) -> (r:
    TextScan)
    requires
        table.wf(),
    ensures
        issues_view(r.issues@) == text_issues(
            table.spec_rules(),
            strings_view(lines@),
            lines@.len() as int,
            path@,
            m,
            c,
        ),
        strings_view(r.messages@) == text_messages(
            table.spec_rules(),
            strings_view(lines@),
            lines@.len() as int,
            path@,
            m,
            c,
        ),
        r.fired@.len() == table.spec_rules().len(),
        forall|j: int|
            0 <= j < r.fired@.len() ==> r.fired@[j] == fired_upto(
                table.spec_rules()[j],
                strings_view(lines@),
                lines@.len() as int,
                m,
                c,
            ),
{
    let ghost rules = table.spec_rules();
    let ghost lv = strings_view(lines@);
    let n = table.len();
    let mut issues: Vec<SecurityIssue> = Vec::new();
    let mut messages: Vec<String> = Vec::new();
    let mut fired: Vec<bool> = Vec::new();
    let mut j: usize = 0;
    while j < n
        invariant
            n == rules.len(),
            0 <= j <= n,
            fired@.len() == j,
            forall|k: int| 0 <= k < j ==> !fired@[k],
        decreases n - j,
    {
        fired.push(false);
        j = j + 1;
    }
    let nl = lines.len();
    let mut i: usize = 0;
    while i < nl
        invariant
            nl == lines@.len(),
            table.wf(),
            rules == table.spec_rules(),
            lv == strings_view(lines@),
            n == rules.len(),
            0 <= i <= lines@.len(),
            issues_view(issues@) == text_issues(rules, lv, i as int, path@, m, c),
            strings_view(messages@) == text_messages(rules, lv, i as int, path@, m, c),
            fired@.len() == n,
            forall|k: int|
                0 <= k < n ==> fired@[k] == fired_upto(rules[k], lv, i as int, m, c),
        decreases nl - i,
    {
        let line = &lines[i];
        let hits = table.line_hits(line.as_str(), m, c);
        let ghost issues0 = issues_view(issues@);
        let ghost messages0 = strings_view(messages@);
        let ghost fired0 = fired@;
        assert(lv[i as int] == line@);
        let mut j: usize = 0;
        while j < n
            invariant
                table.wf(),
                rules == table.spec_rules(),
                n == rules.len(),
                hits@.len() == n,
                forall|k: int| 0 <= k < n ==> hits@[k] == fires(rules[k], line@, m, c),
                0 <= j <= n,
                nl == lines@.len(),
                i < nl,
                fired0.len() == n,
                issues_view(issues@) == issues0 + line_issues(
                    rules,
                    j as int,
                    line@,
                    i + 1,
                    path@,
                    m,
                    c,
                ),
                strings_view(messages@) == messages0 + line_messages(
                    rules,
                    j as int,
                    line@,
                    i + 1,
                    path@,
                    m,
                    c,
                ),
                fired@ == fired0,
            decreases n - j,
        {
            if hits[j] {
                let rule = table.rule(j);
                let ghost ib = issues@;
                issues.push(hit_issue_exec(rule, i + 1, line, path));
                assert(issues_view(issues@) =~= issues_view(ib).push(
                    hit_issue(rules[j as int], i + 1, line@, path@),
                ));
                if rule.hard_trigger {
                    let ghost mb = messages@;
                    messages.push(hit_message_exec(rule, i + 1, path));
                    assert(strings_view(messages@) =~= strings_view(mb).push(
                        hit_message(rules[j as int], i + 1, path@),
                    ));
                }
            }
            j = j + 1;
        }
        let mut x: usize = 0;
        while x < n
            invariant
                n == rules.len(),
                hits@.len() == n,
                forall|k: int| 0 <= k < n ==> hits@[k] == fires(rules[k], line@, m, c),
                fired0.len() == n,
                fired@.len() == n,
                0 <= x <= n,
                forall|k: int| 0 <= k < x ==> (#[trigger] fired@[k] <==> (fired0[k] || hits@[k])),
                forall|k: int| x <= k < n ==> (#[trigger] fired@[k] <==> fired0[k]),
            decreases n - x,
        {
            if hits[x] {
                fired.set(x, true);
            }
            x = x + 1;
        }
        assert forall|k: int| 0 <= k < n implies fired@[k] == fired_upto(
            rules[k],
            lv,
            i + 1,
            m,
            c,
        ) by {
            assert(fired0[k] == fired_upto(rules[k], lv, i as int, m, c));
        }
        i = i + 1;
    }
    TextScan { issues, messages, fired }
}


pub open spec fn has_category(issues: Seq<IssueView>, c: IssueCategory) -> bool {
    exists|k: int| 0 <= k < issues.len() && #[trigger] issues[k].category == c
}

/// The advice attached to a report: a warning by score band, one note per
/// risky category present, or an all-clear when there is nothing to say.
pub open spec fn recommendations_for(issues: Seq<IssueView>, score: int) -> Seq<Seq<char>> {
    let a: Seq<Seq<char>> = if score < 50 {
        seq!["Severe security risk: installing this package is not recommended."@]
    } else if score < 70 {
        seq!["Moderate security risk: use with care."@]
    } else {
        Seq::empty()
    };
    let b = if has_category(issues, IssueCategory::Network) {
        a.push("Makes network requests: confirm that the destinations are trusted."@)
    } else {
        a
    };
    let c = if has_category(issues, IssueCategory::FileSystem) {
        b.push("Operates on the file system: check the paths it touches."@)
    } else {
        b
    };
    let d = if has_category(issues, IssueCategory::ProcessExecution) {
        c.push("Runs other processes: high risk."@)
    } else {
        c
    };
    if d.len() == 0 {
        seq!["No obvious security issue found."@]
    } else {
        d
    }
}

/// The weights of the rules, in order.
pub open spec fn weights(rules: Seq<Rule>) -> Seq<u32> {
    Seq::new(rules.len(), |j: int| rules[j].weight)
}

/// 1 for each rule that reports some line, 0 for the others.
pub open spec fn fired_counts(rules: Seq<Rule>, lines: Seq<Seq<char>>, m: bool, c: bool) -> Seq<
    u32,
> {
    Seq::new(
        rules.len(),
        |j: int|
            if fired_upto(rules[j], lines, lines.len() as int, m, c) {
                1u32
            } else {
                0u32
            },
    )
}

/// Issue `k` is the first with its rule and file.
pub open spec fn first_of_pair(issues: Seq<IssueView>, k: int) -> bool {
    forall|k2: int|
        0 <= k2 < k ==> !(#[trigger] issues[k2].rule_id == issues[k].rule_id && issues[k2].file_path
            == issues[k].file_path)
}

/// The number of distinct files among the first `k` issues of rule `id`.
pub open spec fn distinct_files(issues: Seq<IssueView>, id: Seq<char>, k: int) -> int
    decreases k,
{
    if k <= 0 {
        0
    } else {
        distinct_files(issues, id, k - 1) + if issues[k - 1].rule_id == id && first_of_pair(
            issues,
            k - 1,
        ) {
            1int
        } else {
            0
        }
    }
}

/// Per rule, the number of distinct files its issues name.
/// Per rule, the number of distinct files its issues name (a count past
/// `u32::MAX` counts as `u32::MAX`).
pub open spec fn issue_counts(rules: Seq<Rule>, issues: Seq<IssueView>) -> Seq<u32> {
    Seq::new(rules.len(), |j: int| capped(distinct_files(issues, rules[j].id@, issues.len() as int)))
}

pub open spec fn capped(d: int) -> u32 {
    if d < u32::MAX {
        d as u32
    } else {
        u32::MAX
    }
}

fn same_opt(a: &Option<String>, b: &Option<String>) -> (r: bool)
    ensures
        r == (opt_view(*a) == opt_view(*b)),
{
    match (a, b) {
        (Some(x), Some(y)) => *x == *y,
        (None, None) => true,
        _ => false,
    }
}

fn weights_exec(table: &RuleTable) -> (r: Vec<u32>)
    ensures
        r@ == weights(table.spec_rules()),
{
    let mut out: Vec<u32> = Vec::new();
    let mut j: usize = 0;
    while j < table.len()
        invariant
            0 <= j <= table.spec_rules().len(),
            out@ == weights(table.spec_rules()).subrange(0, j as int),
        decreases table.spec_rules().len() - j,
    {
        out.push(table.rule(j).weight);
        assert(out@ =~= weights(table.spec_rules()).subrange(0, j + 1));
        j = j + 1;
    }
    assert(out@ =~= weights(table.spec_rules()));
    out
}

/// Whether issue `k` is the first with its rule and file.
fn is_first_of_pair(issues: &Vec<SecurityIssue>, k: usize) -> (r: bool)
    requires
        k < issues@.len(),
    ensures
        r == first_of_pair(issues_view(issues@), k as int),
{
    let ghost iv = issues_view(issues@);
    let mut k2: usize = 0;
    while k2 < k
        invariant
            k < issues@.len(),
            iv == issues_view(issues@),
            0 <= k2 <= k,
            forall|x: int|
                0 <= x < k2 ==> !(#[trigger] iv[x].rule_id == iv[k as int].rule_id
                    && iv[x].file_path == iv[k as int].file_path),
        decreases k - k2,
    {
        if issues[k2].rule_id == issues[k].rule_id && same_opt(
            &issues[k2].file_path,
            &issues[k].file_path,
        ) {
            assert(iv[k2 as int].rule_id == iv[k as int].rule_id && iv[k2 as int].file_path
                == iv[k as int].file_path);
            return false;
        }
        k2 = k2 + 1;
    }
    true
}

/// Advice for a report with `issues` and `score`.
pub fn recommendations_of(issues: &Vec<SecurityIssue>, score: i32) -> (r: Vec<String>)
    ensures
        strings_view(r@) == recommendations_for(issues_view(issues@), score as int),
{
    let ghost iv = issues_view(issues@);
    let mut net = false;
    let mut fs = false;
    let mut proc = false;
    let mut k: usize = 0;
    while k < issues.len()
        invariant
            iv == issues_view(issues@),
            0 <= k <= issues@.len(),
            net == exists|x: int| 0 <= x < k && #[trigger] iv[x].category == IssueCategory::Network,
            fs == exists|x: int| 0 <= x < k && #[trigger] iv[x].category == IssueCategory::FileSystem,
            proc == exists|x: int|
                0 <= x < k && #[trigger] iv[x].category == IssueCategory::ProcessExecution,
        decreases issues.len() - k,
    {
        let cat = issues[k].category;
        assert(iv[k as int].category == cat);
        if cat == IssueCategory::Network {
            net = true;
        }
        if cat == IssueCategory::FileSystem {
            fs = true;
        }
        if cat == IssueCategory::ProcessExecution {
            proc = true;
        }
        k = k + 1;
    }
    let mut out: Vec<String> = Vec::new();
    if score < 50 {
        out.push("Severe security risk: installing this package is not recommended.".to_string());
    } else if score < 70 {
        out.push("Moderate security risk: use with care.".to_string());
    }
    if net {
        out.push("Makes network requests: confirm that the destinations are trusted.".to_string());
    }
    if fs {
        out.push("Operates on the file system: check the paths it touches.".to_string());
    }
    if proc {
        out.push("Runs other processes: high risk.".to_string());
    }
    if out.len() == 0 {
        out.push("No obvious security issue found.".to_string());
    }
    assert(strings_view(out@) =~= recommendations_for(iv, score as int));
    out
}

/// The SHA-256 digest of `b` in lower-case hexadecimal.
pub uninterp spec fn sha256_hex(b: Seq<u8>) -> Seq<char>;

/// Relies on `sha2::Sha256::digest` formatted with `{:x}`: the digest of the
/// bytes as lower-case hexadecimal.
#[verifier::external_body]
fn sha256_hex_of(content: &[u8]) -> (r: String)
    ensures
        r@ == sha256_hex(content@),
{
    format!("{:x}", <sha2::Sha256 as sha2::Digest>::digest(content))
}

/// What a security checker offers.
pub trait SecurityChecker {
    fn scan_file(&self, content: &str, file_path: &str) -> SecurityReport;

    fn calculate_score(&self, issues: &Vec<SecurityIssue>) -> (r: i32)
        ensures
            0 <= r <= 100,
    ;
}

/// The scanner: a compiled rule table.
pub struct SecurityScanner {
    table: RuleTable,
}

impl SecurityScanner {
    pub closed spec fn wf(&self) -> bool {
        self.table.wf()
    }

    pub closed spec fn rules(&self) -> Seq<Rule> {
        self.table.spec_rules()
    }

    #[verifier::type_invariant]
    closed spec fn compiled(&self) -> bool {
        self.table.wf()
    }

    /// The scanner over the built-in rule table; `None` only if one of its
    /// patterns fails to compile.
    pub fn new() -> (r: Option<SecurityScanner>)
        ensures
            r is Some <==> set_compiles(builtin_patterns()),
            r matches Some(s) ==> builtin_rules(s.rules()),
    {
        let rules = default_rules();
        assert(rules@.map_values(|r: Rule| r.pattern@) =~= builtin_patterns());
        match RuleTable::compile(rules) {
            Some(table) => Some(SecurityScanner { table }),
            None => None,
        }
    }

    /// The checksum recorded for a downloaded file.
    pub fn calculate_checksum(&self, content: &[u8]) -> (r: String)
        ensures
            r@ == sha256_hex(content@),
    {
        sha256_hex_of(content)
    }

    /// The severity reported for a category.
    pub fn determine_severity(&self, category: &IssueCategory) -> (r: IssueSeverity)
        ensures
            r == category_severity(*category),
    {
        severity_of(*category)
    }

    /// The decay score of `issues`: each rule counts once per distinct file
    /// its issues name; issues of no rule of the table count nothing.
    pub fn calculate_score(&self, issues: &Vec<SecurityIssue>) -> (r: i32)
        ensures
            r as int == decay_score(weights(self.rules()), issue_counts(self.rules(), issues_view(issues@))),
            0 <= r <= 100,
    {
        let ghost rules = self.rules();
        let ghost iv = issues_view(issues@);
        let n = self.table.len();
        let mut counts: Vec<u32> = Vec::new();
        let mut j: usize = 0;
        while j < n
            invariant
                n == rules.len(),
                rules == self.rules(),
                iv == issues_view(issues@),
                0 <= j <= n,
                counts@ == issue_counts(rules, iv).subrange(0, j as int),
            decreases n - j,
        {
            let id = &self.table.rule(j).id;
            let mut cnt: usize = 0;
            let mut k: usize = 0;
            while k < issues.len()
                invariant
                    iv == issues_view(issues@),
                    0 <= k <= issues@.len(),
                    cnt as int == distinct_files(iv, id@, k as int),
                    cnt <= k,
                decreases issues.len() - k,
            {
                if issues[k].rule_id == *id && is_first_of_pair(issues, k) {
                    cnt = cnt + 1;
                }
                k = k + 1;
            }
            counts.push(if cnt < u32::MAX as usize {
                cnt as u32
            } else {
                u32::MAX
            });
            assert(counts@ =~= issue_counts(rules, iv).subrange(0, j + 1));
            j = j + 1;
        }
        assert(counts@ =~= issue_counts(rules, iv));
        let w = weights_exec(&self.table);
        decay_score_of(&w, &counts)
    }

    /// Advice for a report with `issues` and `score`.
    pub fn generate_recommendations(&self, issues: &Vec<SecurityIssue>, score: i32) -> (r: Vec<
        String,
    >)
        ensures
            strings_view(r@) == recommendations_for(issues_view(issues@), score as int),
    {
        recommendations_of(issues, score)
    }

    /// Scans one in-memory file named `file_path`.
    pub fn scan_file(&self, content: &str, file_path: &str) -> (r: SecurityReport)
        ensures
            ({
                let lines = text_lines(content@);
                let name = file_name(file_path@);
                let m = is_manifest(name);
                let c = is_code(name);
                &&& r.skill_id@ == file_path@
                &&& issues_view(r.issues@) == text_issues(
                    self.rules(),
                    lines,
                    lines.len() as int,
                    file_path@,
                    m,
                    c,
                )
                &&& strings_view(r.hard_trigger_issues@) == text_messages(
                    self.rules(),
                    lines,
                    lines.len() as int,
                    file_path@,
                    m,
                    c,
                )
                &&& r.score as int == decay_score(
                    weights(self.rules()),
                    fired_counts(self.rules(), lines, m, c),
                )
                &&& r.level == level_of(r.score as int)
                &&& strings_view(r.recommendations@) == recommendations_for(
                    issues_view(r.issues@),
                    r.score as int,
                )
                &&& r.blocked == (r.hard_trigger_issues@.len() > 0)
                &&& strings_view(r.scanned_files@) == seq![file_path@]
                &&& r.skipped_files@.len() == 0
                &&& !r.partial_scan
            }),
    {
        proof {
            use_type_invariant(self);
        }
        let text = chars_of(content);
        let lines = split_lines(&text);
        let path = file_path.to_string();
        let pv = chars_of(file_path);
        let name = file_name_of(&pv);
        let m = is_manifest_file(&name);
        let c = is_code_file(&name);
        let ts = scan_lines(&self.table, &lines, &path, m, c);
        let ghost lv = strings_view(lines@);
        let mut counts: Vec<u32> = Vec::new();
        let mut j: usize = 0;
        while j < ts.fired.len()
            invariant
                ts.fired@.len() == self.rules().len(),
                lv == text_lines(content@),
                forall|k: int|
                    0 <= k < ts.fired@.len() ==> ts.fired@[k] == fired_upto(
                        self.rules()[k],
                        lv,
                        lv.len() as int,
                        m,
                        c,
                    ),
                0 <= j <= ts.fired@.len(),
                counts@ == fired_counts(self.rules(), lv, m, c).subrange(0, j as int),
            decreases ts.fired.len() - j,
        {
            counts.push(if ts.fired[j] { 1u32 } else { 0u32 });
            assert(counts@ =~= fired_counts(self.rules(), lv, m, c).subrange(0, j + 1));
            j = j + 1;
        }
        assert(counts@ =~= fired_counts(self.rules(), lv, m, c));
        let w = weights_exec(&self.table);
        let score = decay_score_of(&w, &counts);
        let recommendations = recommendations_of(&ts.issues, score);
        let blocked = ts.messages.len() > 0;
        let mut scanned: Vec<String> = Vec::new();
        scanned.push(file_path.to_string());
        assert(strings_view(scanned@) =~= seq![file_path@]);
        SecurityReport {
            skill_id: path,
            score,
            level: SecurityLevel::from_score(score),
            issues: ts.issues,
            recommendations,
            blocked,
            hard_trigger_issues: ts.messages,
            scanned_files: scanned,
            skipped_files: Vec::new(),
            partial_scan: false,
        }
    }
}


/// Deepest directory level whose files are scanned.
pub const MAX_DEPTH: usize = 20;

/// Files scanned at most; a larger tree gives a partial scan.
pub const MAX_FILES: usize = 2000;

/// Bytes of a file that are read; the rest is cut off.
pub const MAX_FILE_BYTES: usize = 2097152;

#[derive(Debug, Clone, Copy, PartialEq, Eq, Structural)]
pub enum EntryKind {
    File,
    Directory,
    Symlink,
    /// A file whose contents could not be read.
    Unreadable,
}

/// One entry of a walked tree: its `/`-separated path relative to the root,
/// its kind (a file that could not be read is `Unreadable`), its depth (1 for
/// the root's children), and for a file the first `MAX_FILE_BYTES` of its
/// bytes and whether there were more.
pub struct TreeEntry {
    pub path: String,
    pub kind: EntryKind,
    pub depth: usize,
    pub content: Vec<u8>,
    pub truncated: bool,
}

#[derive(Debug, Clone, Copy, PartialEq, Eq, Structural)]
pub struct ScanOptions {
    /// Leave out `readme.md` and `readme.<locale>.md`.
    pub skip_readme: bool,
}

/// Directory names that are never descended into.
pub open spec fn is_skipped_dir(name: Seq<char>) -> bool {
    name == ".git"@ || name == ".svn"@ || name == ".hg"@ || name == "node_modules"@ || name
        == "target"@ || name == "dist"@ || name == "build"@ || name == "__pycache__"@ || name
        == ".venv"@ || name == "venv"@
}

/// Whether a walk goes into directory `name` found at `depth`.
pub fn should_descend(name: &str, depth: usize) -> (r: bool)
    ensures
        r == (!is_skipped_dir(name@) && depth < MAX_DEPTH),
{
    let n = name.to_string();
    let skipped = n == ".git".to_string() || n == ".svn".to_string() || n == ".hg".to_string()
        || n == "node_modules".to_string() || n == "target".to_string() || n == "dist".to_string()
        || n == "build".to_string() || n == "__pycache__".to_string() || n == ".venv".to_string()
        || n == "venv".to_string();
    !skipped && depth < MAX_DEPTH
}

/// A file the scan looks at.
pub open spec fn eligible(e: TreeEntry, skip_readme: bool) -> bool {
    (e.kind == EntryKind::File || e.kind == EntryKind::Unreadable) && e.depth <= MAX_DEPTH && !(
    skip_readme && is_readme(
        file_name(e.path@),
    ))
}

pub fn is_eligible(e: &TreeEntry, options: ScanOptions) -> (r: bool)
    ensures
        r == eligible(*e, options.skip_readme),
{
    if (e.kind != EntryKind::File && e.kind != EntryKind::Unreadable) || e.depth > MAX_DEPTH {
        return false;
    }
    if options.skip_readme {
        let pv = chars_of(e.path.as_str());
        let name = file_name_of(&pv);
        !is_readme_file(&name)
    } else {
        true
    }
}

pub open spec fn symlink_issue(path: Seq<char>) -> IssueView {
    IssueView {
        severity: IssueSeverity::Critical,
        category: IssueCategory::FileSystem,
        description: "Symbolic link (not followed)"@,
        line_number: None,
        code_snippet: None,
        file_path: Some(path),
        rule_id: "SYMLINK"@,
    }
}

pub open spec fn symlink_message(path: Seq<char>) -> Seq<char> {
    "[SYMLINK] "@ + path
}

/// The warning for a file that could not be read; the scan goes on.
pub open spec fn unreadable_issue(path: Seq<char>) -> IssueView {
    IssueView {
        severity: IssueSeverity::Warning,
        category: IssueCategory::Other,
        description: "File could not be read"@,
        line_number: None,
        code_snippet: None,
        file_path: Some(path),
        rule_id: "UNREADABLE"@,
    }
}

fn unreadable_issue_exec(path: &String) -> (i: SecurityIssue)
    ensures
        i@ == unreadable_issue(path@),
{
    SecurityIssue {
        severity: IssueSeverity::Warning,
        category: IssueCategory::Other,
        description: "File could not be read".to_string(),
        line_number: None,
        code_snippet: None,
        file_path: Some(path.clone()),
        rule_id: "UNREADABLE".to_string(),
    }
}

pub open spec fn truncated_issue(path: Seq<char>) -> IssueView {
    IssueView {
        severity: IssueSeverity::Info,
        category: IssueCategory::Other,
        description: "File cut off after its first 2 MiB"@,
        line_number: None,
        code_snippet: None,
        file_path: Some(path),
        rule_id: "TRUNCATED"@,
    }
}

/// What a tree scan has gathered so far.
pub struct ScanTally {
    pub issues: Seq<IssueView>,
    pub messages: Seq<Seq<char>>,
    pub scanned: Seq<Seq<char>>,
    pub skipped: Seq<Seq<char>>,
    pub counts: Seq<u32>,
    pub files: int,
    pub partial: bool,
}

/// Adds one to the count of each rule that reports some line.
pub open spec fn add_fired(
    counts: Seq<u32>,
    rules: Seq<Rule>,
    lines: Seq<Seq<char>>,
    m: bool,
    c: bool,
) -> Seq<u32> {
    Seq::new(
        counts.len(),
        |j: int|
            if fired_upto(rules[j], lines, lines.len() as int, m, c) {
                (counts[j] + 1) as u32
            } else {
                counts[j]
            },
    )
}

/// One entry: a symlink is reported and never followed; a file past the
/// `MAX_FILES` eligible ones only marks the scan partial; an unreadable file
/// gets a warning and a binary file is recorded as skipped (both make the
/// scan partial); a text file is scanned.
pub open spec fn tally_step(rules: Seq<Rule>, t: ScanTally, e: TreeEntry, skip_readme: bool) -> ScanTally {
    if e.kind == EntryKind::Symlink {
        ScanTally {
            issues: t.issues.push(symlink_issue(e.path@)),
            messages: t.messages.push(symlink_message(e.path@)),
            ..t
        }
    } else if !eligible(e, skip_readme) {
        t
    } else if t.files >= MAX_FILES {
        ScanTally { files: t.files + 1, partial: true, ..t }
    } else if e.kind == EntryKind::Unreadable {
        ScanTally {
            files: t.files + 1,
            issues: t.issues.push(unreadable_issue(e.path@)),
            skipped: t.skipped.push(e.path@),
            partial: true,
            ..t
        }
    } else {
        match decode_text(e.content@) {
            None => ScanTally {
                files: t.files + 1,
                skipped: t.skipped.push(e.path@),
                partial: true,
                ..t
            },
            Some(text) => tally_text(rules, t, e, text),
        }
    }
}

/// A scanned text file added to the tally.
pub open spec fn tally_text(rules: Seq<Rule>, t: ScanTally, e: TreeEntry, text: Seq<char>) -> ScanTally {
    let lines = text_lines(text);
    let name = file_name(e.path@);
    let m = is_manifest(name);
    let c = is_code(name);
    ScanTally {
        issues: t.issues + text_issues(rules, lines, lines.len() as int, e.path@, m, c)
            + if e.truncated {
            seq![truncated_issue(e.path@)]
        } else {
            Seq::empty()
        },
        messages: t.messages + text_messages(rules, lines, lines.len() as int, e.path@, m, c),
        scanned: t.scanned.push(e.path@),
        skipped: t.skipped,
        counts: add_fired(t.counts, rules, lines, m, c),
        files: t.files + 1,
        partial: t.partial || e.truncated,
    }
}

/// The tally over the first `k` entries.
pub open spec fn tally(rules: Seq<Rule>, entries: Seq<TreeEntry>, k: int, skip_readme: bool) -> ScanTally
    decreases k,
{
    if k <= 0 {
        ScanTally {
            issues: Seq::empty(),
            messages: Seq::empty(),
            scanned: Seq::empty(),
            skipped: Seq::empty(),
            counts: Seq::new(rules.len(), |j: int| 0u32),
            files: 0,
            partial: false,
        }
    } else {
        tally_step(rules, tally(rules, entries, k - 1, skip_readme), entries[k - 1], skip_readme)
    }
}

/// Number of eligible files among the first `k` entries.
pub open spec fn eligible_count(entries: Seq<TreeEntry>, k: int, skip_readme: bool) -> int
    decreases k,
{
    if k <= 0 {
        0
    } else {
        eligible_count(entries, k - 1, skip_readme) + if eligible(entries[k - 1], skip_readme) {
            1int
        } else {
            0
        }
    }
}

proof fn lemma_views_append_issues(a: Seq<SecurityIssue>, b: Seq<SecurityIssue>)
    ensures
        issues_view(a + b) == issues_view(a) + issues_view(b),
{
    assert(issues_view(a + b) =~= issues_view(a) + issues_view(b));
}

proof fn lemma_views_append_strings(a: Seq<String>, b: Seq<String>)
    ensures
        strings_view(a + b) == strings_view(a) + strings_view(b),
{
    assert(strings_view(a + b) =~= strings_view(a) + strings_view(b));
}

/// Adds one to each count whose flag is set.
fn bump_counts(counts: &mut Vec<u32>, fired: &Vec<bool>, bound: usize)
    requires
        old(counts)@.len() == fired@.len(),
        forall|y: int| 0 <= y < old(counts)@.len() ==> old(counts)@[y] <= bound,
        bound < MAX_FILES,
    ensures
        final(counts)@.len() == old(counts)@.len(),
        forall|y: int|
            0 <= y < final(counts)@.len() ==> #[trigger] final(counts)@[y] == if fired@[y] {
                (old(counts)@[y] + 1) as u32
            } else {
                old(counts)@[y]
            },
{
    let ghost c0 = counts@;
    let n = counts.len();
    let mut x: usize = 0;
    while x < n
        invariant
            n == c0.len(),
            counts@.len() == n,
            fired@.len() == n,
            forall|y: int| 0 <= y < n ==> c0[y] <= bound,
            bound < MAX_FILES,
            0 <= x <= n,
            forall|y: int|
                0 <= y < x ==> #[trigger] counts@[y] == if fired@[y] {
                    (c0[y] + 1) as u32
                } else {
                    c0[y]
                },
            forall|y: int| x <= y < n ==> #[trigger] counts@[y] == c0[y],
        decreases n - x,
    {
        if fired[x] {
            let v = counts[x];
            counts.set(x, v + 1);
        }
        x = x + 1;
    }
}

/// The executable counterpart of `ScanTally`.
struct Accum {
    issues: Vec<SecurityIssue>,
    messages: Vec<String>,
    scanned: Vec<String>,
    skipped: Vec<String>,
    counts: Vec<u32>,
    files: usize,
    partial: bool,
}

impl View for Accum {
    type V = ScanTally;

    closed spec fn view(&self) -> ScanTally {
        ScanTally {
            issues: issues_view(self.issues@),
            messages: strings_view(self.messages@),
            scanned: strings_view(self.scanned@),
            skipped: strings_view(self.skipped@),
            counts: self.counts@,
            files: self.files as int,
            partial: self.partial,
        }
    }
}

fn truncated_issue_exec(path: &String) -> (i: SecurityIssue)
    ensures
        i@ == truncated_issue(path@),
{
    SecurityIssue {
        severity: IssueSeverity::Info,
        category: IssueCategory::Other,
        description: "File cut off after its first 2 MiB".to_string(),
        line_number: None,
        code_snippet: None,
        file_path: Some(path.clone()),
        rule_id: "TRUNCATED".to_string(),
    }
}

fn symlink_issue_exec(path: &String) -> (i: SecurityIssue)
    ensures
        i@ == symlink_issue(path@),
{
    SecurityIssue {
        severity: IssueSeverity::Critical,
        category: IssueCategory::FileSystem,
        description: "Symbolic link (not followed)".to_string(),
        line_number: None,
        code_snippet: None,
        file_path: Some(path.clone()),
        rule_id: "SYMLINK".to_string(),
    }
}

impl SecurityScanner {
    /// Adds a decoded text file to the accumulator.
    fn absorb_text(&self, acc: &mut Accum, e: &TreeEntry, text: String)
        requires
            self.wf(),
            old(acc).counts@.len() == self.rules().len(),
            forall|x: int| 0 <= x < old(acc).counts@.len() ==> old(acc).counts@[x] <= old(acc).files,
            old(acc).files < MAX_FILES,
        ensures
            final(acc)@ == tally_text(self.rules(), old(acc)@, *e, text@),
            final(acc).counts@.len() == self.rules().len(),
            forall|x: int| 0 <= x < final(acc).counts@.len() ==> final(acc).counts@[x] <= final(acc).files,
            final(acc).files == old(acc).files + 1,
    {
        let ghost rules = self.rules();
        let ghost t = acc@;
        let n = self.table.len();
        let tv = chars_of(text.as_str());
        let lines = split_lines(&tv);
        let pv = chars_of(e.path.as_str());
        let name = file_name_of(&pv);
        let m = is_manifest_file(&name);
        let c = is_code_file(&name);
        let mut ts = scan_lines(&self.table, &lines, &e.path, m, c);
        let ghost lv = strings_view(lines@);
        let ghost ib = acc.issues@;
        let ghost tsi = ts.issues@;
        acc.issues.append(&mut ts.issues);
        proof {
            lemma_views_append_issues(ib, tsi);
        }
        if e.truncated {
            let ghost ib2 = acc.issues@;
            acc.issues.push(truncated_issue_exec(&e.path));
            assert(issues_view(acc.issues@) =~= issues_view(ib2).push(truncated_issue(e.path@)));
            assert(issues_view(acc.issues@) =~= issues_view(ib) + issues_view(tsi) + seq![
                truncated_issue(e.path@),
            ]);
        } else {
            assert(issues_view(acc.issues@) =~= issues_view(ib) + issues_view(tsi) + Seq::<
                IssueView,
            >::empty());
        }
        let ghost mb = acc.messages@;
        let ghost tsm = ts.messages@;
        acc.messages.append(&mut ts.messages);
        proof {
            lemma_views_append_strings(mb, tsm);
        }
        let ghost sb = acc.scanned@;
        acc.scanned.push(e.path.clone());
        assert(strings_view(acc.scanned@) =~= strings_view(sb).push(e.path@));
        let ghost cb = acc.counts@;
        bump_counts(&mut acc.counts, &ts.fired, acc.files);
        acc.files = acc.files + 1;
        assert(acc.counts@ =~= add_fired(cb, rules, lv, m, c));
        if e.truncated {
            acc.partial = true;
        }
    }

    /// Adds one entry to the accumulator.
    fn absorb(&self, acc: &mut Accum, e: &TreeEntry, options: ScanOptions)
        requires
            self.wf(),
            old(acc).counts@.len() == self.rules().len(),
            forall|x: int| 0 <= x < old(acc).counts@.len() ==> old(acc).counts@[x] <= old(acc).files,
            old(acc).files < usize::MAX,
        ensures
            final(acc)@ == tally_step(self.rules(), old(acc)@, *e, options.skip_readme),
            final(acc).counts@.len() == self.rules().len(),
            forall|x: int| 0 <= x < final(acc).counts@.len() ==> final(acc).counts@[x] <= final(acc).files,
            final(acc).files <= old(acc).files + 1,
    {
        if e.kind == EntryKind::Symlink {
            let ghost ib = acc.issues@;
            let ghost mb = acc.messages@;
            acc.issues.push(symlink_issue_exec(&e.path));
            let msg = concat("[SYMLINK] ", e.path.as_str());
            acc.messages.push(msg);
            assert(issues_view(acc.issues@) =~= issues_view(ib).push(symlink_issue(e.path@)));
            assert(strings_view(acc.messages@) =~= strings_view(mb).push(symlink_message(e.path@)));
        } else if !is_eligible(e, options) {
        } else if acc.files >= MAX_FILES {
            acc.files = acc.files + 1;
            acc.partial = true;
        } else if e.kind == EntryKind::Unreadable {
            let ghost ib = acc.issues@;
            let ghost sb = acc.skipped@;
            acc.issues.push(unreadable_issue_exec(&e.path));
            acc.skipped.push(e.path.clone());
            assert(issues_view(acc.issues@) =~= issues_view(ib).push(unreadable_issue(e.path@)));
            assert(strings_view(acc.skipped@) =~= strings_view(sb).push(e.path@));
            acc.files = acc.files + 1;
            acc.partial = true;
        } else {
            match decode_text_bytes(e.content.as_slice()) {
                None => {
                    let ghost sb = acc.skipped@;
                    acc.skipped.push(e.path.clone());
                    assert(strings_view(acc.skipped@) =~= strings_view(sb).push(e.path@));
                    acc.files = acc.files + 1;
                    acc.partial = true;
                },
                Some(text) => {
                    self.absorb_text(acc, e, text);
                },
            }
        }
    }

    /// Scans a walked tree. The report's score is the decay score of the
    /// per-rule counts of distinct scanned files; it is blocked exactly when
    /// some hard-trigger rule fired or some symlink was met.
    pub fn scan_entries(&self, entries: &Vec<TreeEntry>, subject_id: &str, options: ScanOptions) -> (r:
        SecurityReport)
        ensures
            ({
                let t = tally(self.rules(), entries@, entries@.len() as int, options.skip_readme);
                &&& r.skill_id@ == subject_id@
                &&& issues_view(r.issues@) == t.issues
                &&& strings_view(r.hard_trigger_issues@) == t.messages
                &&& strings_view(r.scanned_files@) == t.scanned
                &&& strings_view(r.skipped_files@) == t.skipped
                &&& r.partial_scan == t.partial
                &&& r.score as int == decay_score(weights(self.rules()), t.counts)
                &&& r.level == level_of(r.score as int)
                &&& r.blocked == (t.messages.len() > 0)
                &&& strings_view(r.recommendations@) == recommendations_for(
                    t.issues,
                    r.score as int,
                )
            }),
    {
        proof {
            use_type_invariant(self);
        }
        let ghost rules = self.rules();
        let ghost ev = entries@;
        let sr = options.skip_readme;
        let n = self.table.len();
        let mut counts: Vec<u32> = Vec::new();
        let mut j: usize = 0;
        while j < n
            invariant
                n == rules.len(),
                0 <= j <= n,
                counts@ == Seq::new(rules.len(), |x: int| 0u32).subrange(0, j as int),
            decreases n - j,
        {
            counts.push(0u32);
            assert(counts@ =~= Seq::new(rules.len(), |x: int| 0u32).subrange(0, j + 1));
            j = j + 1;
        }
        assert(counts@ =~= Seq::new(rules.len(), |x: int| 0u32));
        let mut acc = Accum {
            issues: Vec::new(),
            messages: Vec::new(),
            scanned: Vec::new(),
            skipped: Vec::new(),
            counts,
            files: 0,
            partial: false,
        };
        assert(issues_view(acc.issues@) =~= Seq::<IssueView>::empty());
        assert(strings_view(acc.messages@) =~= Seq::<Seq<char>>::empty());
        assert(strings_view(acc.scanned@) =~= Seq::<Seq<char>>::empty());
        assert(strings_view(acc.skipped@) =~= Seq::<Seq<char>>::empty());
        let mut k: usize = 0;
        while k < entries.len()
            invariant
                self.wf(),
                rules == self.rules(),
                ev == entries@,
                sr == options.skip_readme,
                0 <= k <= ev.len(),
                acc.files <= k,
                acc@ == tally(rules, ev, k as int, sr),
                acc.counts@.len() == rules.len(),
                forall|x: int| 0 <= x < acc.counts@.len() ==> acc.counts@[x] <= acc.files,
            decreases entries.len() - k,
        {
            let ghost before = acc@;
            let e = &entries[k];
            assert(ev[k as int] == *e);
            self.absorb(&mut acc, e, options);
            assert(acc@ == tally_step(self.rules(), before, *e, options.skip_readme));
            assert(acc@ == tally_step(rules, before, ev[k as int], sr));
            assert(tally(rules, ev, k + 1, sr) == tally_step(
                rules,
                tally(rules, ev, k as int, sr),
                ev[k as int],
                sr,
            ));
            k = k + 1;
        }
        let w = weights_exec(&self.table);
        let score = decay_score_of(&w, &acc.counts);
        let recommendations = recommendations_of(&acc.issues, score);
        let blocked = acc.messages.len() > 0;
        SecurityReport {
            skill_id: subject_id.to_string(),
            score,
            level: SecurityLevel::from_score(score),
            issues: acc.issues,
            recommendations,
            blocked,
            hard_trigger_issues: acc.messages,
            scanned_files: acc.scanned,
            skipped_files: acc.skipped,
            partial_scan: acc.partial,
        }
    }

    /// The number of files a scan of `entries` would read.
    pub fn count_scan_files(&self, entries: &Vec<TreeEntry>, options: ScanOptions) -> (r: usize)
        ensures
            r as int == if eligible_count(entries@, entries@.len() as int, options.skip_readme)
                < MAX_FILES {
                eligible_count(entries@, entries@.len() as int, options.skip_readme)
            } else {
                MAX_FILES as int
            },
    {
        let mut count: usize = 0;
        let mut k: usize = 0;
        while k < entries.len()
            invariant
                0 <= k <= entries@.len(),
                count as int == eligible_count(entries@, k as int, options.skip_readme),
                count <= k,
            decreases entries.len() - k,
        {
            if is_eligible(&entries[k], options) {
                count = count + 1;
            }
            k = k + 1;
        }
        if count < MAX_FILES {
            count
        } else {
            MAX_FILES
        }
    }
}


/// A hard-trigger rule reporting any line blocks the text's scan, whatever
/// the score.
pub proof fn lemma_hard_hit_blocks(
    rules: Seq<Rule>,
    lines: Seq<Seq<char>>,
    path: Seq<char>,
    m: bool,
    c: bool,
    i: int,
    j: int,
)
    requires
        0 <= i < lines.len(),
        0 <= j < rules.len(),
        rules[j].hard_trigger,
        fires(rules[j], lines[i], m, c),
    ensures
        text_messages(rules, lines, lines.len() as int, path, m, c).len() > 0,
{
    lemma_line_messages_nonempty(rules, rules.len() as int, lines[i], i + 1, path, m, c, j);
    lemma_text_messages_grow(rules, lines, i + 1, lines.len() as int, path, m, c);
}

proof fn lemma_line_messages_nonempty(
    rules: Seq<Rule>,
    k: int,
    line: Seq<char>,
    lineno: int,
    path: Seq<char>,
    m: bool,
    c: bool,
    j: int,
)
    requires
        0 <= j < k <= rules.len(),
        rules[j].hard_trigger,
        fires(rules[j], line, m, c),
    ensures
        line_messages(rules, k, line, lineno, path, m, c).len() > 0,
    decreases k,
{
    if j < k - 1 {
        lemma_line_messages_nonempty(rules, k - 1, line, lineno, path, m, c, j);
    }
}

proof fn lemma_text_messages_grow(
    rules: Seq<Rule>,
    lines: Seq<Seq<char>>,
    n1: int,
    n2: int,
    path: Seq<char>,
    m: bool,
    c: bool,
)
    requires
        1 <= n1 <= n2 <= lines.len(),
        line_messages(rules, rules.len() as int, lines[n1 - 1], n1, path, m, c).len() > 0,
    ensures
        text_messages(rules, lines, n2, path, m, c).len() > 0,
    decreases n2 - n1,
{
    if n2 > n1 {
        lemma_text_messages_grow(rules, lines, n1, n2 - 1, path, m, c);
    }
}

/// For the built-in rules (whose ids are distinct): an issue of a rule that
/// already fired, in a file that rule had not named yet, never raises the
/// score `calculate_score` gives.
pub proof fn lemma_builtin_new_file_never_raises_score(
    rules: Seq<Rule>,
    iv: Seq<IssueView>,
    m: IssueView,
    j: int,
)
    requires
        builtin_rules(rules),
        0 <= j < rules.len(),
        m.rule_id == rules[j].id@,
        distinct_files(iv, m.rule_id, iv.len() as int) >= 1,
        forall|k: int|
            0 <= k < iv.len() && (#[trigger] iv[k]).rule_id == m.rule_id ==> iv[k].file_path
                != m.file_path,
    ensures
        decay_score(weights(rules), issue_counts(rules, iv.push(m))) <= decay_score(
            weights(rules),
            issue_counts(rules, iv),
        ),
{
    lemma_builtin_ids_distinct(rules);
    lemma_new_file_never_raises_score(rules, iv, m, j);
}

proof fn lemma_distinct_prefix(iv: Seq<IssueView>, m: IssueView, id: Seq<char>, k: int)
    requires
        0 <= k <= iv.len(),
    ensures
        distinct_files(iv.push(m), id, k) == distinct_files(iv, id, k),
    decreases k,
{
    if k > 0 {
        lemma_distinct_prefix(iv, m, id, k - 1);
        assert(first_of_pair(iv.push(m), k - 1) == first_of_pair(iv, k - 1)) by {
            assert forall|k2: int| 0 <= k2 < k - 1 implies iv.push(m)[k2] == iv[k2] by {}
        }
    }
}

/// An issue of a rule that already fired, in a file that rule had not named
/// yet, never raises the score `calculate_score` gives (rule ids being
/// distinct).
pub proof fn lemma_new_file_never_raises_score(
    rules: Seq<Rule>,
    iv: Seq<IssueView>,
    m: IssueView,
    j: int,
)
    requires
        0 <= j < rules.len(),
        forall|a: int, b: int|
            0 <= a < b < rules.len() ==> (#[trigger] rules[a]).id@ != (#[trigger] rules[b]).id@,
        m.rule_id == rules[j].id@,
        distinct_files(iv, m.rule_id, iv.len() as int) >= 1,
        forall|k: int|
            0 <= k < iv.len() && (#[trigger] iv[k]).rule_id == m.rule_id ==> iv[k].file_path
                != m.file_path,
    ensures
        decay_score(weights(rules), issue_counts(rules, iv.push(m))) <= decay_score(
            weights(rules),
            issue_counts(rules, iv),
        ),
{
    let iv2 = iv.push(m);
    let n = iv.len() as int;
    let c1 = issue_counts(rules, iv);
    let c2 = issue_counts(rules, iv2);
    assert forall|x: int| 0 <= x < rules.len() implies distinct_files(iv2, rules[x].id@, n + 1)
        == distinct_files(iv, rules[x].id@, n) + if x == j {
        1int
    } else {
        0
    } by {
        lemma_distinct_prefix(iv, m, rules[x].id@, n);
        assert(iv2[n] == m);
        if x == j {
            assert forall|k2: int| 0 <= k2 < n implies !(#[trigger] iv2[k2].rule_id == iv2[n].rule_id
                && iv2[k2].file_path == iv2[n].file_path) by {
                assert(iv2[k2] == iv[k2]);
            }
        } else {
            if x < j {
                assert(rules[x].id@ != rules[j].id@);
            } else {
                assert(rules[j].id@ != rules[x].id@);
            }
        }
    }
    let d = distinct_files(iv, m.rule_id, n);
    if d >= u32::MAX {
        assert(c2 =~= c1);
    } else {
        assert(c2 =~= c1.update(j, (c1[j] + 1) as u32));
        lemma_more_files_never_raise_score(weights(rules), c1, j);
    }
}

proof fn lemma_fired_upto(r: Rule, lines: Seq<Seq<char>>, i: int, n: int, m: bool, c: bool)
    requires
        0 <= i < n <= lines.len(),
        fires(r, lines[i], m, c),
    ensures
        fired_upto(r, lines, n, m, c),
    decreases n,
{
    if i < n - 1 {
        lemma_fired_upto(r, lines, i, n - 1, m, c);
    }
}

/// With the built-in rules, a text with an unrestricted wipe of the root
/// directory on any line is blocked and scores at most 60: the wipe rule
/// costs its full weight of 40.
pub proof fn lemma_wipe_blocks_and_costs(
    rules: Seq<Rule>,
    lines: Seq<Seq<char>>,
    path: Seq<char>,
    m: bool,
    c: bool,
    i: int,
)
    requires
        builtin_rules(rules),
        0 <= i < lines.len(),
        fires(rules[0], lines[i], m, c),
    ensures
        text_messages(rules, lines, lines.len() as int, path, m, c).len() > 0,
        decay_score(weights(rules), fired_counts(rules, lines, m, c)) <= 60,
{
    lemma_hard_hit_blocks(rules, lines, path, m, c, i, 0);
    lemma_fired_upto(rules[0], lines, i, lines.len() as int, m, c);
    lemma_fired_rule_costs_weight(weights(rules), fired_counts(rules, lines, m, c), 0);
}

proof fn lemma_no_line_messages(rules: Seq<Rule>, k: int, line: Seq<char>, lineno: int, path: Seq<char>, m: bool, c: bool)
    requires
        0 <= k <= rules.len(),
        forall|j: int| 0 <= j < rules.len() && #[trigger] fires(rules[j], line, m, c) ==> !rules[j].hard_trigger,
    ensures
        line_messages(rules, k, line, lineno, path, m, c).len() == 0,
    decreases k,
{
    if k > 0 {
        lemma_no_line_messages(rules, k - 1, line, lineno, path, m, c);
    }
}

/// A text on which no hard-trigger rule fires is not blocked.
pub proof fn lemma_no_hard_hit_no_block(
    rules: Seq<Rule>,
    lines: Seq<Seq<char>>,
    n: int,
    path: Seq<char>,
    m: bool,
    c: bool,
)
    requires
        0 <= n <= lines.len(),
        forall|i: int, j: int|
            0 <= i < lines.len() && 0 <= j < rules.len() && #[trigger] fires(rules[j], lines[i], m, c)
                ==> !rules[j].hard_trigger,
    ensures
        text_messages(rules, lines, n, path, m, c).len() == 0,
    decreases n,
{
    if n > 0 {
        lemma_no_hard_hit_no_block(rules, lines, n - 1, path, m, c);
        assert forall|j: int| 0 <= j < rules.len() && #[trigger] fires(rules[j], lines[n - 1], m, c)
            implies !rules[j].hard_trigger by {}
        lemma_no_line_messages(rules, rules.len() as int, lines[n - 1], n, path, m, c);
    }
}

/// With the built-in rules, a text in which only the API-key rule fires is
/// not blocked and scores exactly 90: one first-occurrence deduction of its
/// weight of 10.
pub proof fn lemma_secret_alone(rules: Seq<Rule>, lines: Seq<Seq<char>>, path: Seq<char>, m: bool, c: bool, i: int)
    requires
        builtin_rules(rules),
        0 <= i < lines.len(),
        fires(rules[15], lines[i], m, c),
        forall|x: int, j: int|
            0 <= x < lines.len() && 0 <= j < rules.len() && j != 15 ==> !#[trigger] fires(
                rules[j],
                lines[x],
                m,
                c,
            ),
    ensures
        text_messages(rules, lines, lines.len() as int, path, m, c).len() == 0,
        decay_score(weights(rules), fired_counts(rules, lines, m, c)) == 90,
{
    assert forall|x: int, j: int|
        0 <= x < lines.len() && 0 <= j < rules.len() && #[trigger] fires(rules[j], lines[x], m, c)
            implies !rules[j].hard_trigger by {
        if j != 15 {
        }
    }
    lemma_no_hard_hit_no_block(rules, lines, lines.len() as int, path, m, c);
    let ns = fired_counts(rules, lines, m, c);
    let ws = weights(rules);
    lemma_fired_upto(rules[15], lines, i, lines.len() as int, m, c);
    assert forall|j: int| 0 <= j < ns.len() && j != 15 implies ns[j] == 0 by {
        lemma_never_fired(rules[j], lines, lines.len() as int, m, c);
    }
    lemma_only_rule_fired(ws, ns, 15, ws.len() as int);
    lemma_first_files_cost_weights(ws, ns);
}

proof fn lemma_never_fired(r: Rule, lines: Seq<Seq<char>>, n: int, m: bool, c: bool)
    requires
        0 <= n <= lines.len(),
        forall|x: int| 0 <= x < lines.len() ==> !#[trigger] fires(r, lines[x], m, c),
    ensures
        !fired_upto(r, lines, n, m, c),
    decreases n,
{
    if n > 0 {
        lemma_never_fired(r, lines, n - 1, m, c);
    }
}

/// The tally keeps what it has gathered: later entries only append.
pub proof fn lemma_tally_grows(rules: Seq<Rule>, entries: Seq<TreeEntry>, k1: int, k2: int, sr: bool)
    requires
        0 <= k1 <= k2 <= entries.len(),
    ensures
        tally(rules, entries, k1, sr).messages.len() <= tally(rules, entries, k2, sr).messages.len(),
        forall|x: int|
            0 <= x < tally(rules, entries, k1, sr).messages.len() ==> #[trigger] tally(
                rules,
                entries,
                k2,
                sr,
            ).messages[x] == tally(rules, entries, k1, sr).messages[x],
    decreases k2 - k1,
{
    if k1 < k2 {
        lemma_tally_grows(rules, entries, k1, k2 - 1, sr);
        let t = tally(rules, entries, k2 - 1, sr);
        let t2 = tally(rules, entries, k2, sr);
        assert(t2 == tally_step(rules, t, entries[k2 - 1], sr));
        assert(t.messages.len() <= t2.messages.len());
        assert forall|x: int| 0 <= x < t.messages.len() implies t2.messages[x] == t.messages[x] by {
        }
    }
}

/// A symlink anywhere in the tree blocks the scan, and the hard-trigger
/// messages name its path.
pub proof fn lemma_symlink_blocks(rules: Seq<Rule>, entries: Seq<TreeEntry>, i: int, sr: bool)
    requires
        0 <= i < entries.len(),
        entries[i].kind == EntryKind::Symlink,
    ensures
        tally(rules, entries, entries.len() as int, sr).messages.len() > 0,
        exists|x: int|
            0 <= x < tally(rules, entries, entries.len() as int, sr).messages.len()
                && #[trigger] tally(rules, entries, entries.len() as int, sr).messages[x]
                == symlink_message(entries[i].path@),
{
    let t = tally(rules, entries, i, sr);
    let t1 = tally(rules, entries, i + 1, sr);
    assert(t1 == tally_step(rules, t, entries[i], sr));
    assert(t1.messages == t.messages.push(symlink_message(entries[i].path@)));
    let x = t.messages.len() as int;
    assert(t1.messages[x] == symlink_message(entries[i].path@));
    lemma_tally_grows(rules, entries, i + 1, entries.len() as int, sr);
    let tn = tally(rules, entries, entries.len() as int, sr);
    assert(tn.messages[x] == t1.messages[x]);
}

/// Every eligible file is counted; the first `MAX_FILES` of them are read
/// (scanned or skipped as binary), and any beyond make the scan partial.
pub proof fn lemma_file_cap(rules: Seq<Rule>, entries: Seq<TreeEntry>, k: int, sr: bool)
    requires
        0 <= k <= entries.len(),
    ensures
        tally(rules, entries, k, sr).files == eligible_count(entries, k, sr),
        tally(rules, entries, k, sr).scanned.len() + tally(rules, entries, k, sr).skipped.len()
            == if eligible_count(entries, k, sr) < MAX_FILES {
            eligible_count(entries, k, sr)
        } else {
            MAX_FILES as int
        },
        eligible_count(entries, k, sr) > MAX_FILES ==> tally(rules, entries, k, sr).partial,
    decreases k,
{
    if k > 0 {
        lemma_file_cap(rules, entries, k - 1, sr);
        let t = tally(rules, entries, k - 1, sr);
        assert(tally(rules, entries, k, sr) == tally_step(rules, t, entries[k - 1], sr));
        if entries[k - 1].kind != EntryKind::Symlink && eligible(entries[k - 1], sr) && t.files
            < MAX_FILES {
            match decode_text(entries[k - 1].content@) {
                None => {},
                Some(text) => {
                    assert(tally_text(rules, t, entries[k - 1], text).scanned.len()
                        == t.scanned.len() + 1);
                },
            }
        }
    }
}

/// A tree with exactly `MAX_FILES` eligible files is read in full; one more
/// makes the scan partial and leaves the extra file unread.
pub proof fn lemma_file_cap_boundary(rules: Seq<Rule>, entries: Seq<TreeEntry>, sr: bool)
    ensures
        eligible_count(entries, entries.len() as int, sr) == MAX_FILES ==> tally(
            rules,
            entries,
            entries.len() as int,
            sr,
        ).scanned.len() + tally(rules, entries, entries.len() as int, sr).skipped.len()
            == MAX_FILES,
        eligible_count(entries, entries.len() as int, sr) == MAX_FILES + 1 ==> tally(
            rules,
            entries,
            entries.len() as int,
            sr,
        ).partial && tally(rules, entries, entries.len() as int, sr).scanned.len() + tally(
            rules,
            entries,
            entries.len() as int,
            sr,
        ).skipped.len() == MAX_FILES,
{
    lemma_file_cap(rules, entries, entries.len() as int, sr);
}

/// Every eligible file among the first `k` entries decodes as text and was
/// read whole.
pub open spec fn clean_upto(entries: Seq<TreeEntry>, k: int, sr: bool) -> bool {
    forall|i: int|
        0 <= i < k && eligible(#[trigger] entries[i], sr) ==> entries[i].kind == EntryKind::File
            && decode_text(entries[i].content@) is Some && !entries[i].truncated
}

/// In a tree whose files all decode and were read whole, nothing is skipped
/// and the scan is partial exactly when the file cap is exceeded.
pub proof fn lemma_clean_tree(rules: Seq<Rule>, entries: Seq<TreeEntry>, k: int, sr: bool)
    requires
        0 <= k <= entries.len(),
        clean_upto(entries, k, sr),
    ensures
        tally(rules, entries, k, sr).skipped.len() == 0,
        tally(rules, entries, k, sr).partial == (eligible_count(entries, k, sr) > MAX_FILES),
    decreases k,
{
    if k > 0 {
        lemma_clean_tree(rules, entries, k - 1, sr);
        lemma_file_cap(rules, entries, k - 1, sr);
        let t = tally(rules, entries, k - 1, sr);
        assert(tally(rules, entries, k, sr) == tally_step(rules, t, entries[k - 1], sr));
        if entries[k - 1].kind != EntryKind::Symlink && eligible(entries[k - 1], sr) && t.files
            < MAX_FILES {
            let text = decode_text(entries[k - 1].content@)->Some_0;
            assert(tally_step(rules, t, entries[k - 1], sr) == tally_text(
                rules,
                t,
                entries[k - 1],
                text,
            ));
        }
    }
}

/// A clean tree with exactly `MAX_FILES` eligible files is scanned in full
/// and not partial; with one more it is partial and the extra file unread.
pub proof fn lemma_clean_tree_boundary(rules: Seq<Rule>, entries: Seq<TreeEntry>, sr: bool)
    requires
        clean_upto(entries, entries.len() as int, sr),
    ensures
        eligible_count(entries, entries.len() as int, sr) == MAX_FILES ==> !tally(
            rules,
            entries,
            entries.len() as int,
            sr,
        ).partial && tally(rules, entries, entries.len() as int, sr).scanned.len() == MAX_FILES,
        eligible_count(entries, entries.len() as int, sr) == MAX_FILES + 1 ==> tally(
            rules,
            entries,
            entries.len() as int,
            sr,
        ).partial && tally(rules, entries, entries.len() as int, sr).scanned.len() == MAX_FILES,
{
    lemma_clean_tree(rules, entries, entries.len() as int, sr);
    lemma_file_cap(rules, entries, entries.len() as int, sr);
}

/// Scanning the same entries twice gives the same tally, hence the same
/// score, issues and blocking.
pub proof fn lemma_scan_repeatable(
    rules: Seq<Rule>,
    first: Seq<TreeEntry>,
    second: Seq<TreeEntry>,
    sr: bool,
)
    requires
        first == second,
    ensures
        tally(rules, first, first.len() as int, sr) == tally(rules, second, second.len() as int, sr),
{
}

impl SecurityChecker for SecurityScanner {
    fn scan_file(&self, content: &str, file_path: &str) -> SecurityReport {
        SecurityScanner::scan_file(self, content, file_path)
    }

    fn calculate_score(&self, issues: &Vec<SecurityIssue>) -> (r: i32) {
        SecurityScanner::calculate_score(self, issues)
    }
}

} // verus!
