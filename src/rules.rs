//! The detection rules and the compiled pattern set that evaluates them.
//! Every pattern of the table is compiled once into one `regex::RegexSet`,
//! whose per-pattern answer is exact: one pass over a line yields precisely
//! the rules that a separate run of each pattern would report.

use vstd::prelude::*;
use crate::report::{IssueCategory, IssueSeverity};

verus! {

#[verifier::external_type_specification]
#[verifier::external_body]
pub struct ExRegexSet(regex::RegexSet);

/// The patterns a compiled set holds, in order.
pub uninterp spec fn set_patterns(s: regex::RegexSet) -> Seq<Seq<char>>;

/// Whether `regex::RegexSet::new` accepts `patterns`.
pub uninterp spec fn set_compiles(patterns: Seq<Seq<char>>) -> bool;

/// Whether the regular expression `pattern` (default syntax options) matches
/// somewhere in `haystack`.
pub uninterp spec fn pattern_matches(pattern: Seq<char>, haystack: Seq<char>) -> bool;

/// Relies on `regex::RegexSet::new`: whether it accepts the patterns depends
/// on them alone, and on success the set holds them, in the given order.
#[verifier::external_body]
fn compile_set(patterns: &Vec<String>) -> (r: Option<regex::RegexSet>)
    ensures
        r is Some <==> set_compiles(patterns@.map_values(|p: String| p@)),
        r matches Some(s) ==> set_patterns(s) == patterns@.map_values(|p: String| p@),
{
    regex::RegexSet::new(patterns.iter()).ok()
}

/// Relies on `regex::RegexSet::matches` and `SetMatches::matched`: entry `i`
/// tells whether pattern `i` of the set matches somewhere in `haystack`.
#[verifier::external_body]
fn set_matches(s: &regex::RegexSet, haystack: &str) -> (r: Vec<bool>)
    ensures
        r@.len() == set_patterns(*s).len(),
        forall|i: int|
            0 <= i < r@.len() ==> r@[i] == pattern_matches(set_patterns(*s)[i], haystack@),
{
    let m = s.matches(haystack);
    (0..m.len()).map(|i| m.matched(i)).collect()
}

/// The groups the rules are written in.
#[derive(Debug, Clone, Copy, PartialEq, Eq, Structural)]
pub enum RuleGroup {
    FileSystem,
    Network,
    DataExfiltration,
    Secrets,
    FileOperation,
    Obfuscation,
}

/// The files a rule applies to (the skill manifest always gets every rule).
#[derive(Debug, Clone, Copy, PartialEq, Eq, Structural)]
pub enum FileScope {
    AnyFile,
    CodeOnly,
}

pub struct Rule {
    pub id: String,
    pub name: String,
    pub pattern: String,
    pub group: RuleGroup,
    pub severity: IssueSeverity,
    pub weight: u32,
    pub hard_trigger: bool,
    pub scope: FileScope,
}

/// The reported category of each rule group.
pub open spec fn group_category(g: RuleGroup) -> IssueCategory {
    match g {
        RuleGroup::FileSystem => IssueCategory::FileSystem,
        RuleGroup::Network => IssueCategory::Network,
        RuleGroup::DataExfiltration => IssueCategory::DataExfiltration,
        RuleGroup::Secrets => IssueCategory::Secrets,
        RuleGroup::FileOperation => IssueCategory::FileSystem,
        RuleGroup::Obfuscation => IssueCategory::ObfuscatedCode,
    }
}

pub fn report_category(g: RuleGroup) -> (r: IssueCategory)
    ensures
        r == group_category(g),
{
    match g {
        RuleGroup::FileSystem => IssueCategory::FileSystem,
        RuleGroup::Network => IssueCategory::Network,
        RuleGroup::DataExfiltration => IssueCategory::DataExfiltration,
        RuleGroup::Secrets => IssueCategory::Secrets,
        RuleGroup::FileOperation => IssueCategory::FileSystem,
        RuleGroup::Obfuscation => IssueCategory::ObfuscatedCode,
    }
}

/// The severity reported for each category.
pub open spec fn category_severity(c: IssueCategory) -> IssueSeverity {
    match c {
        IssueCategory::ProcessExecution => IssueSeverity::Critical,
        IssueCategory::DataExfiltration => IssueSeverity::Critical,
        IssueCategory::Network => IssueSeverity::Error,
        IssueCategory::FileSystem => IssueSeverity::Warning,
        IssueCategory::DangerousFunction => IssueSeverity::Error,
        IssueCategory::ObfuscatedCode => IssueSeverity::Warning,
        IssueCategory::Secrets => IssueSeverity::Warning,
        IssueCategory::Other => IssueSeverity::Info,
    }
}

pub fn severity_of(c: IssueCategory) -> (r: IssueSeverity)
    ensures
        r == category_severity(c),
{
    match c {
        IssueCategory::ProcessExecution => IssueSeverity::Critical,
        IssueCategory::DataExfiltration => IssueSeverity::Critical,
        IssueCategory::Network => IssueSeverity::Error,
        IssueCategory::FileSystem => IssueSeverity::Warning,
        IssueCategory::DangerousFunction => IssueSeverity::Error,
        IssueCategory::ObfuscatedCode => IssueSeverity::Warning,
        IssueCategory::Secrets => IssueSeverity::Warning,
        IssueCategory::Other => IssueSeverity::Info,
    }
}

impl Rule {
    pub fn new(
        id: &str,
        name: &str,
        pattern: &str,
        group: RuleGroup,
        weight: u32,
        hard_trigger: bool,
        scope: FileScope,
    ) -> (r: Rule)
        ensures
            r.id@ == id@,
            r.name@ == name@,
            r.pattern@ == pattern@,
            r.group == group,
            r.severity == category_severity(group_category(group)),
            r.weight == weight,
            r.hard_trigger == hard_trigger,
            r.scope == scope,
    {
        Rule {
            id: id.to_string(),
            name: name.to_string(),
            pattern: pattern.to_string(),
            group,
            severity: severity_of(report_category(group)),
            weight,
            hard_trigger,
            scope,
        }
    }
}

/// `r` has exactly these attributes (its severity follows its group).
pub open spec fn rule_is(
    r: Rule,
    id: Seq<char>,
    name: Seq<char>,
    pattern: Seq<char>,
    group: RuleGroup,
    weight: u32,
    hard_trigger: bool,
    scope: FileScope,
) -> bool {
    &&& r.id@ == id
    &&& r.name@ == name
    &&& r.pattern@ == pattern
    &&& r.group == group
    &&& r.severity == category_severity(group_category(group))
    &&& r.weight == weight
    &&& r.hard_trigger == hard_trigger
    &&& r.scope == scope
}

/// The patterns of the built-in rule table, in order.
pub open spec fn builtin_patterns() -> Seq<Seq<char>> {
    seq![
        r"rm\s+-rf\s+/"@,
        r"rm\s+-rf\s+(\$HOME|~)"@,
        r"chmod\s+777"@,
        r"eval\s*\("@,
        r"exec\s*\("@,
        r"os\.system\s*\("@,
        r"subprocess\.(call|run|Popen)"@,
        r"curl\s+.*\|\s*(bash|sh)"@,
        r"wget\s+.*\|\s*(bash|sh)"@,
        r"requests\.post\s*\("@,
        r"http\.request\s*\("@,
        r"socket\.connect\s*\("@,
        r"/\.ssh/"@,
        r"/\.aws/"@,
        r"AWS_ACCESS_KEY"@,
        r"API_KEY"@,
        r"PASSWORD\s*="@,
        r"SECRET\s*="@,
        r#"open\s*\(.*['"]w"#@,
        r"File\.write|fs\.writeFile"@,
        r"os\.remove"@,
        r"shutil\.rmtree"@,
        r"base64\.b64decode"@,
        r"\\x[0-9a-fA-F]{2}|chr\s*\(\s*\d+\s*\)"@,
    ]
}

/// The built-in rule table: only the unrestricted wipes of the root or home
/// directory and piping a download into a shell are hard triggers.
pub open spec fn builtin_rules(rs: Seq<Rule>) -> bool {
    &&& rs.len() == 24
    &&& rule_is(rs[0], "FS_RM_ROOT"@, "Deletes the root directory"@, r"rm\s+-rf\s+/"@, RuleGroup::FileSystem, 40, true, FileScope::AnyFile)
    &&& rule_is(rs[1], "FS_RM_HOME"@, "Deletes the home directory"@, r"rm\s+-rf\s+(\$HOME|~)"@, RuleGroup::FileSystem, 40, true, FileScope::AnyFile)
    &&& rule_is(rs[2], "FS_CHMOD_777"@, "Sets world-writable permissions"@, r"chmod\s+777"@, RuleGroup::FileSystem, 10, false, FileScope::AnyFile)
    &&& rule_is(rs[3], "FS_EVAL"@, "Calls eval"@, r"eval\s*\("@, RuleGroup::FileSystem, 15, false, FileScope::CodeOnly)
    &&& rule_is(rs[4], "FS_EXEC"@, "Calls exec"@, r"exec\s*\("@, RuleGroup::FileSystem, 15, false, FileScope::CodeOnly)
    &&& rule_is(rs[5], "FS_OS_SYSTEM"@, "Runs a shell command"@, r"os\.system\s*\("@, RuleGroup::FileSystem, 20, false, FileScope::CodeOnly)
    &&& rule_is(rs[6], "FS_SUBPROCESS"@, "Starts a subprocess"@, r"subprocess\.(call|run|Popen)"@, RuleGroup::FileSystem, 15, false, FileScope::CodeOnly)
    &&& rule_is(rs[7], "NET_CURL_PIPE"@, "Downloads a script and runs it"@, r"curl\s+.*\|\s*(bash|sh)"@, RuleGroup::Network, 35, true, FileScope::AnyFile)
    &&& rule_is(rs[8], "NET_WGET_PIPE"@, "Downloads a script and runs it"@, r"wget\s+.*\|\s*(bash|sh)"@, RuleGroup::Network, 35, true, FileScope::AnyFile)
    &&& rule_is(rs[9], "NET_HTTP_POST"@, "Sends an HTTP POST request"@, r"requests\.post\s*\("@, RuleGroup::Network, 10, false, FileScope::CodeOnly)
    &&& rule_is(rs[10], "NET_HTTP_REQUEST"@, "Sends an HTTP request"@, r"http\.request\s*\("@, RuleGroup::Network, 10, false, FileScope::CodeOnly)
    &&& rule_is(rs[11], "NET_SOCKET"@, "Opens a network connection"@, r"socket\.connect\s*\("@, RuleGroup::Network, 15, false, FileScope::CodeOnly)
    &&& rule_is(rs[12], "EXFIL_SSH_DIR"@, "Reads the SSH key directory"@, r"/\.ssh/"@, RuleGroup::DataExfiltration, 20, false, FileScope::AnyFile)
    &&& rule_is(rs[13], "EXFIL_AWS_DIR"@, "Reads the AWS configuration directory"@, r"/\.aws/"@, RuleGroup::DataExfiltration, 20, false, FileScope::AnyFile)
    &&& rule_is(rs[14], "SECRET_AWS_KEY"@, "May hold an AWS access key"@, r"AWS_ACCESS_KEY"@, RuleGroup::Secrets, 15, false, FileScope::AnyFile)
    &&& rule_is(rs[15], "SECRET_API_KEY"@, "May hold an API key"@, r"API_KEY"@, RuleGroup::Secrets, 10, false, FileScope::AnyFile)
    &&& rule_is(rs[16], "SECRET_PASSWORD"@, "May hold a hard-coded password"@, r"PASSWORD\s*="@, RuleGroup::Secrets, 15, false, FileScope::AnyFile)
    &&& rule_is(rs[17], "SECRET_VALUE"@, "May hold a hard-coded secret"@, r"SECRET\s*="@, RuleGroup::Secrets, 15, false, FileScope::AnyFile)
    &&& rule_is(rs[18], "FILE_WRITE_OPEN"@, "Writes a file"@, r#"open\s*\(.*['"]w"#@, RuleGroup::FileOperation, 5, false, FileScope::CodeOnly)
    &&& rule_is(rs[19], "FILE_WRITE"@, "Writes a file"@, r"File\.write|fs\.writeFile"@, RuleGroup::FileOperation, 5, false, FileScope::CodeOnly)
    &&& rule_is(rs[20], "FILE_REMOVE"@, "Deletes a file"@, r"os\.remove"@, RuleGroup::FileOperation, 10, false, FileScope::CodeOnly)
    &&& rule_is(rs[21], "FILE_RMTREE"@, "Deletes a directory tree"@, r"shutil\.rmtree"@, RuleGroup::FileOperation, 15, false, FileScope::CodeOnly)
    &&& rule_is(rs[22], "OBF_BASE64"@, "Decodes Base64 (possible obfuscation)"@, r"base64\.b64decode"@, RuleGroup::Obfuscation, 10, false, FileScope::CodeOnly)
    &&& rule_is(rs[23], "OBF_HEX_CHR"@, "Builds text from character codes (possible obfuscation)"@, r"\\x[0-9a-fA-F]{2}|chr\s*\(\s*\d+\s*\)"@, RuleGroup::Obfuscation, 5, false, FileScope::CodeOnly)
}

/// The rule table of the scanner.
pub fn default_rules() -> (r: Vec<Rule>)
    ensures
        builtin_rules(r@),
{
    let mut v: Vec<Rule> = Vec::new();
    v.push(Rule::new("FS_RM_ROOT", "Deletes the root directory", r"rm\s+-rf\s+/", RuleGroup::FileSystem, 40, true, FileScope::AnyFile));
    v.push(Rule::new("FS_RM_HOME", "Deletes the home directory", r"rm\s+-rf\s+(\$HOME|~)", RuleGroup::FileSystem, 40, true, FileScope::AnyFile));
    v.push(Rule::new("FS_CHMOD_777", "Sets world-writable permissions", r"chmod\s+777", RuleGroup::FileSystem, 10, false, FileScope::AnyFile));
    v.push(Rule::new("FS_EVAL", "Calls eval", r"eval\s*\(", RuleGroup::FileSystem, 15, false, FileScope::CodeOnly));
    v.push(Rule::new("FS_EXEC", "Calls exec", r"exec\s*\(", RuleGroup::FileSystem, 15, false, FileScope::CodeOnly));
    v.push(Rule::new("FS_OS_SYSTEM", "Runs a shell command", r"os\.system\s*\(", RuleGroup::FileSystem, 20, false, FileScope::CodeOnly));
    v.push(Rule::new("FS_SUBPROCESS", "Starts a subprocess", r"subprocess\.(call|run|Popen)", RuleGroup::FileSystem, 15, false, FileScope::CodeOnly));
    v.push(Rule::new("NET_CURL_PIPE", "Downloads a script and runs it", r"curl\s+.*\|\s*(bash|sh)", RuleGroup::Network, 35, true, FileScope::AnyFile));
    v.push(Rule::new("NET_WGET_PIPE", "Downloads a script and runs it", r"wget\s+.*\|\s*(bash|sh)", RuleGroup::Network, 35, true, FileScope::AnyFile));
    v.push(Rule::new("NET_HTTP_POST", "Sends an HTTP POST request", r"requests\.post\s*\(", RuleGroup::Network, 10, false, FileScope::CodeOnly));
    v.push(Rule::new("NET_HTTP_REQUEST", "Sends an HTTP request", r"http\.request\s*\(", RuleGroup::Network, 10, false, FileScope::CodeOnly));
    v.push(Rule::new("NET_SOCKET", "Opens a network connection", r"socket\.connect\s*\(", RuleGroup::Network, 15, false, FileScope::CodeOnly));
    v.push(Rule::new("EXFIL_SSH_DIR", "Reads the SSH key directory", r"/\.ssh/", RuleGroup::DataExfiltration, 20, false, FileScope::AnyFile));
    v.push(Rule::new("EXFIL_AWS_DIR", "Reads the AWS configuration directory", r"/\.aws/", RuleGroup::DataExfiltration, 20, false, FileScope::AnyFile));
    v.push(Rule::new("SECRET_AWS_KEY", "May hold an AWS access key", r"AWS_ACCESS_KEY", RuleGroup::Secrets, 15, false, FileScope::AnyFile));
    v.push(Rule::new("SECRET_API_KEY", "May hold an API key", r"API_KEY", RuleGroup::Secrets, 10, false, FileScope::AnyFile));
    v.push(Rule::new("SECRET_PASSWORD", "May hold a hard-coded password", r"PASSWORD\s*=", RuleGroup::Secrets, 15, false, FileScope::AnyFile));
    v.push(Rule::new("SECRET_VALUE", "May hold a hard-coded secret", r"SECRET\s*=", RuleGroup::Secrets, 15, false, FileScope::AnyFile));
    v.push(Rule::new("FILE_WRITE_OPEN", "Writes a file", r#"open\s*\(.*['"]w"#, RuleGroup::FileOperation, 5, false, FileScope::CodeOnly));
    v.push(Rule::new("FILE_WRITE", "Writes a file", r"File\.write|fs\.writeFile", RuleGroup::FileOperation, 5, false, FileScope::CodeOnly));
    v.push(Rule::new("FILE_REMOVE", "Deletes a file", r"os\.remove", RuleGroup::FileOperation, 10, false, FileScope::CodeOnly));
    v.push(Rule::new("FILE_RMTREE", "Deletes a directory tree", r"shutil\.rmtree", RuleGroup::FileOperation, 15, false, FileScope::CodeOnly));
    v.push(Rule::new("OBF_BASE64", "Decodes Base64 (possible obfuscation)", r"base64\.b64decode", RuleGroup::Obfuscation, 10, false, FileScope::CodeOnly));
    v.push(Rule::new("OBF_HEX_CHR", "Builds text from character codes (possible obfuscation)", r"\\x[0-9a-fA-F]{2}|chr\s*\(\s*\d+\s*\)", RuleGroup::Obfuscation, 5, false, FileScope::CodeOnly));
    v
}

/// The built-in rules have pairwise distinct ids.
pub proof fn lemma_builtin_ids_distinct(rs: Seq<Rule>)
    requires
        builtin_rules(rs),
    ensures
        forall|a: int, b: int|
            0 <= a < b < rs.len() ==> (#[trigger] rs[a]).id@ != (#[trigger] rs[b]).id@,
{
        reveal_strlit("FS_RM_ROOT");
        reveal_strlit("FS_RM_HOME");
        reveal_strlit("FS_CHMOD_777");
        reveal_strlit("FS_EVAL");
        reveal_strlit("FS_EXEC");
        reveal_strlit("FS_OS_SYSTEM");
        reveal_strlit("FS_SUBPROCESS");
        reveal_strlit("NET_CURL_PIPE");
        reveal_strlit("NET_WGET_PIPE");
        reveal_strlit("NET_HTTP_POST");
        reveal_strlit("NET_HTTP_REQUEST");
        reveal_strlit("NET_SOCKET");
        reveal_strlit("EXFIL_SSH_DIR");
        reveal_strlit("EXFIL_AWS_DIR");
        reveal_strlit("SECRET_AWS_KEY");
        reveal_strlit("SECRET_API_KEY");
        reveal_strlit("SECRET_PASSWORD");
        reveal_strlit("SECRET_VALUE");
        reveal_strlit("FILE_WRITE_OPEN");
        reveal_strlit("FILE_WRITE");
        reveal_strlit("FILE_REMOVE");
        reveal_strlit("FILE_RMTREE");
        reveal_strlit("OBF_BASE64");
        reveal_strlit("OBF_HEX_CHR");
    assert forall|a: int, b: int| 0 <= a < b < rs.len() implies (#[trigger] rs[a]).id@ != (
    #[trigger] rs[b]).id@ by {
        if rs[a].id@ == rs[b].id@ {
            assert(rs[a].id@.len() == rs[b].id@.len());
            assert(rs[a].id@[3] == rs[b].id@[3]);
            assert(rs[a].id@[4] == rs[b].id@[4]);
            assert(rs[a].id@[5] == rs[b].id@[5]);
            assert(rs[a].id@[6] == rs[b].id@[6]);
            assert(rs[a].id@[7] == rs[b].id@[7]);
            assert(rs[a].id@[8] == rs[b].id@[8]);
        }
    }
}

/// Whether `r` is evaluated on a file: everything on the skill manifest,
/// code-only rules on code files.
pub open spec fn applies(r: Rule, manifest: bool, code: bool) -> bool {
    manifest || code || r.scope == FileScope::AnyFile
}

/// Whether `r` reports `line` of a file.
pub open spec fn fires(r: Rule, line: Seq<char>, manifest: bool, code: bool) -> bool {
    applies(r, manifest, code) && pattern_matches(r.pattern@, line)
}

/// The rules together with their compiled pattern set.
pub struct RuleTable {
    rules: Vec<Rule>,
    set: regex::RegexSet,
}

impl RuleTable {
    pub closed spec fn wf(&self) -> bool {
        set_patterns(self.set) == self.rules@.map_values(|r: Rule| r.pattern@)
    }

    pub closed spec fn spec_rules(&self) -> Seq<Rule> {
        self.rules@
    }

    /// Compiles `rules`; `None` when some pattern is not a valid regular
    /// expression.
    pub fn compile(rules: Vec<Rule>) -> (r: Option<RuleTable>)
        ensures
            r is Some <==> set_compiles(rules@.map_values(|r: Rule| r.pattern@)),
            r matches Some(t) ==> t.wf() && t.spec_rules() == rules@,
    {
        let mut patterns: Vec<String> = Vec::new();
        let mut i: usize = 0;
        while i < rules.len()
            invariant
                0 <= i <= rules@.len(),
                patterns@.len() == i,
                forall|k: int| 0 <= k < i ==> #[trigger] patterns@[k]@ == rules@[k].pattern@,
            decreases rules.len() - i,
        {
            patterns.push(rules[i].pattern.clone());
            i = i + 1;
        }
        assert(patterns@.map_values(|p: String| p@) =~= rules@.map_values(|r: Rule| r.pattern@));
        match compile_set(&patterns) {
            Some(set) => Some(RuleTable { rules, set }),
            None => None,
        }
    }

    pub fn len(&self) -> (r: usize)
        ensures
            r == self.spec_rules().len(),
    {
        self.rules.len()
    }

    pub fn rule(&self, i: usize) -> (r: &Rule)
        requires
            i < self.spec_rules().len(),
        ensures
            *r == self.spec_rules()[i as int],
    {
        &self.rules[i]
    }

    /// For each rule, whether it reports `line` of a file of the given kind.
    pub fn line_hits(&self, line: &str, manifest: bool, code: bool) -> (r: Vec<bool>)
        requires
            self.wf(),
        ensures
            r@.len() == self.spec_rules().len(),
            forall|j: int|
                0 <= j < r@.len() ==> r@[j] == fires(self.spec_rules()[j], line@, manifest, code),
    {
        let m = set_matches(&self.set, line);
        let n = self.rules.len();
        assert(set_patterns(self.set).len() == n);
        let mut out: Vec<bool> = Vec::new();
        let mut j: usize = 0;
        while j < n
            invariant
                n == self.rules@.len(),
                m@.len() == n,
                self.wf(),
                forall|k: int|
                    0 <= k < m@.len() ==> m@[k] == pattern_matches(set_patterns(self.set)[k], line@),
                0 <= j <= n,
                out@.len() == j,
                forall|k: int|
                    0 <= k < j ==> out@[k] == fires(self.rules@[k], line@, manifest, code),
            decreases n - j,
        {
            let r = &self.rules[j];
            assert(set_patterns(self.set)[j as int] == self.rules@[j as int].pattern@);
            let app = manifest || code || r.scope == FileScope::AnyFile;
            out.push(app && m[j]);
            j = j + 1;
        }
        out
    }
}

} // verus!
