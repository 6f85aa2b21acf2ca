//! The per-plugin lifecycle: its states and transitions, the commands each
//! step sends to the CLI, and how each outcome is written back to the record.

use vstd::prelude::*;
use crate::cli::ClaudeCommand;
use crate::cli_args::{parse_slash_command_args, slash_args};
use crate::models::Plugin;
use crate::outcome::CommandOutcome;
use crate::report::{strings_view, IssueSeverity, IssueView, SecurityIssue, SecurityLevel, SecurityReport};
use crate::text::{concat, concat3};
use crate::lines::{decimal, decimal_string};

verus! {

/// Where a plugin stands.
#[derive(Debug, Clone, Copy, PartialEq, Eq, Structural)]
pub enum LifecycleState {
    NotPrepared,
    Blocked,
    Ready,
    Installed,
    Failed,
    Uninstalled,
}

#[derive(Debug, Clone, Copy, PartialEq, Eq, Structural)]
pub enum LifecycleEvent {
    /// A scan finished; `blocked` when a hard trigger fired.
    Scanned { blocked: bool },
    /// The user confirmed; the CLI answered.
    Installed { success: bool },
    /// The user cancelled a prepared installation.
    Cancelled,
    /// The CLI answered an uninstall.
    Uninstalled { success: bool },
}

/// The allowed transitions: a scan from any state but `Installed`;
/// install only from `Ready`; cancel from `Ready` or `Blocked`; uninstall
/// only from `Installed` (a failed uninstall leaves it installed).
pub open spec fn transition(s: LifecycleState, e: LifecycleEvent) -> Option<LifecycleState> {
    match e {
        LifecycleEvent::Scanned { blocked } => if s == LifecycleState::Installed {
            None
        } else if blocked {
            Some(LifecycleState::Blocked)
        } else {
            Some(LifecycleState::Ready)
        },
        LifecycleEvent::Installed { success } => if s != LifecycleState::Ready {
            None
        } else if success {
            Some(LifecycleState::Installed)
        } else {
            Some(LifecycleState::Failed)
        },
        LifecycleEvent::Cancelled => if s == LifecycleState::Ready || s == LifecycleState::Blocked {
            Some(LifecycleState::NotPrepared)
        } else {
            None
        },
        LifecycleEvent::Uninstalled { success } => if s != LifecycleState::Installed {
            None
        } else if success {
            Some(LifecycleState::Uninstalled)
        } else {
            Some(LifecycleState::Installed)
        },
    }
}

pub fn next_state(s: LifecycleState, e: LifecycleEvent) -> (r: Option<LifecycleState>)
    ensures
        r == transition(s, e),
{
    match e {
        LifecycleEvent::Scanned { blocked } => if s == LifecycleState::Installed {
            None
        } else if blocked {
            Some(LifecycleState::Blocked)
        } else {
            Some(LifecycleState::Ready)
        },
        LifecycleEvent::Installed { success } => if s != LifecycleState::Ready {
            None
        } else if success {
            Some(LifecycleState::Installed)
        } else {
            Some(LifecycleState::Failed)
        },
        LifecycleEvent::Cancelled => if s == LifecycleState::Ready || s == LifecycleState::Blocked {
            Some(LifecycleState::NotPrepared)
        } else {
            None
        },
        LifecycleEvent::Uninstalled { success } => if s != LifecycleState::Installed {
            None
        } else if success {
            Some(LifecycleState::Uninstalled)
        } else {
            Some(LifecycleState::Installed)
        },
    }
}

/// A blocked plugin never becomes installed without a new, passing scan.
pub proof fn lemma_blocked_needs_new_scan(e: LifecycleEvent)
    ensures
        transition(LifecycleState::Blocked, e) == Some(LifecycleState::Installed) ==> false,
        transition(LifecycleState::Blocked, e) matches Some(t) ==> (t == LifecycleState::NotPrepared
            || e is Scanned),
{
}

pub open spec fn marketplace_status_word(o: CommandOutcome) -> Seq<char> {
    if o.success {
        if o.already {
            "already_added"@
        } else {
            "added"@
        }
    } else {
        "failed"@
    }
}

pub open spec fn install_status_word(o: CommandOutcome) -> Seq<char> {
    if o.success {
        if o.already {
            "already_installed"@
        } else {
            "installed"@
        }
    } else {
        "failed"@
    }
}

/// Status of the `marketplace add` step; "already added" counts as success.
pub fn marketplace_status(o: CommandOutcome) -> (r: String)
    ensures
        r@ == marketplace_status_word(o),
{
    if o.success {
        if o.already {
            "already_added".to_string()
        } else {
            "added".to_string()
        }
    } else {
        "failed".to_string()
    }
}

/// Status of the `plugin install` step.
pub fn install_status(o: CommandOutcome) -> (r: String)
    ensures
        r@ == install_status_word(o),
{
    if o.success {
        if o.already {
            "already_installed".to_string()
        } else {
            "installed".to_string()
        }
    } else {
        "failed".to_string()
    }
}

/// The record after an install attempt at time `now`: status and log
/// written, staging cleared, installed on success.
pub fn record_install(p: Plugin, o: CommandOutcome, raw_log: String, now: i64) -> (r: Plugin)
    requires
        state_of(p) == LifecycleState::Ready,
    ensures
        r.install_status matches Some(s) && s@ == install_status_word(o),
        r.install_log == Some(raw_log),
        r.staging_path is None,
        r.installed == (o.success || p.installed),
        r.installed_at == if o.success {
            Some(now)
        } else {
            p.installed_at
        },
        r == (Plugin {
            install_status: r.install_status,
            install_log: r.install_log,
            staging_path: None,
            installed: r.installed,
            installed_at: r.installed_at,
            ..p
        }),
{
    let mut q = p;
    q.install_status = Some(install_status(o));
    q.install_log = Some(raw_log);
    q.staging_path = None;
    if o.success {
        q.installed = true;
        q.installed_at = Some(now);
    }
    q
}

/// The record after an uninstall attempt; "not installed" counts as removed.
pub fn record_uninstall(p: Plugin, o: CommandOutcome, raw_log: String) -> (r: Plugin)
    ensures
        r.install_status matches Some(s) && s@ == if o.success {
            "uninstalled"@
        } else {
            "uninstall_failed"@
        },
        r.install_log == Some(raw_log),
        r.installed == (!o.success && p.installed),
        r.installed_at == if o.success {
            None
        } else {
            p.installed_at
        },
        r == (Plugin {
            install_status: r.install_status,
            install_log: r.install_log,
            installed: r.installed,
            installed_at: r.installed_at,
            ..p
        }),
{
    let mut q = p;
    if o.success {
        q.installed = false;
        q.installed_at = None;
        q.install_status = Some("uninstalled".to_string());
    } else {
        q.install_status = Some("uninstall_failed".to_string());
    }
    q.install_log = Some(raw_log);
    q
}

/// Whether the record's stored status is `w`.
pub open spec fn status_is(p: Plugin, w: Seq<char>) -> bool {
    match p.install_status {
        Some(s) => s@ == w,
        None => false,
    }
}

/// The lifecycle state a record stands in: installed; blocked by its last
/// scan; ready (scanned, source staged); failed or uninstalled by the last
/// CLI step; otherwise not prepared.
pub open spec fn state_of(p: Plugin) -> LifecycleState {
    if p.installed {
        LifecycleState::Installed
    } else if status_is(p, "blocked"@) {
        LifecycleState::Blocked
    } else if p.staging_path is Some {
        LifecycleState::Ready
    } else if status_is(p, "failed"@) {
        LifecycleState::Failed
    } else if status_is(p, "uninstalled"@) {
        LifecycleState::Uninstalled
    } else {
        LifecycleState::NotPrepared
    }
}

fn status_equals(p: &Plugin, w: &str) -> (r: bool)
    ensures
        r == status_is(*p, w@),
{
    match &p.install_status {
        Some(s) => *s == w.to_string(),
        None => false,
    }
}

pub fn lifecycle_state(p: &Plugin) -> (r: LifecycleState)
    ensures
        r == state_of(*p),
{
    if p.installed {
        LifecycleState::Installed
    } else if status_equals(p, "blocked") {
        LifecycleState::Blocked
    } else if p.staging_path.is_some() {
        LifecycleState::Ready
    } else if status_equals(p, "failed") {
        LifecycleState::Failed
    } else if status_equals(p, "uninstalled") {
        LifecycleState::Uninstalled
    } else {
        LifecycleState::NotPrepared
    }
}

/// Whether the install step may run for this record: only from `Ready`.
pub fn can_install(p: &Plugin) -> (r: bool)
    ensures
        r == (transition(state_of(*p), LifecycleEvent::Installed { success: true }) is Some),
        r == (state_of(*p) == LifecycleState::Ready),
{
    let s = lifecycle_state(p);
    next_state(s, LifecycleEvent::Installed { success: true }).is_some()
}

/// Whether a prepared installation may be cancelled: only from `Ready` or
/// `Blocked`.
pub fn can_cancel(p: &Plugin) -> (r: bool)
    ensures
        r == (transition(state_of(*p), LifecycleEvent::Cancelled) is Some),
{
    let s = lifecycle_state(p);
    next_state(s, LifecycleEvent::Cancelled).is_some()
}

/// The staged source recorded for a scanned record (which makes it `Ready`
/// unless the scan blocked it); nothing else changes.
pub fn record_staged(p: Plugin, staging: String) -> (r: Plugin)
    ensures
        r == (Plugin { staging_path: Some(staging), ..p }),
        !p.installed && !status_is(p, "blocked"@) ==> state_of(r) == LifecycleState::Ready,
{
    let mut q = p;
    q.staging_path = Some(staging);
    q
}

/// A cancelled preparation: the staged source is dropped, nothing else
/// changes.
pub fn record_cancel(p: Plugin) -> (r: Plugin)
    ensures
        r == (Plugin { staging_path: None, ..p }),
{
    let mut q = p;
    q.staging_path = None;
    q
}

/// Workers of a bulk scan: the requested number within 1 to 8, 3 when none
/// is requested.
pub fn scan_parallelism(requested: Option<usize>) -> (r: usize)
    ensures
        1 <= r <= 8,
        r == match requested {
            Some(n) => if n < 1 {
                1
            } else if n > 8 {
                8
            } else {
                n
            },
            None => 3,
        },
{
    match requested {
        Some(n) => if n < 1 {
            1
        } else if n > 8 {
            8
        } else {
            n
        },
        None => 3,
    }
}

/// A scan's verdict written to a record: a blocked plugin that is not
/// installed is marked `blocked`; a passing scan lifts an earlier block.
/// Nothing else changes.
pub fn record_block(p: Plugin, blocked: bool) -> (r: Plugin)
    ensures
        blocked && !p.installed ==> (r.install_status matches Some(s) && s@ == "blocked"@),
        !blocked && status_is(p, "blocked"@) ==> r.install_status is None,
        !(blocked && !p.installed) && !(!blocked && status_is(p, "blocked"@)) ==> r == p,
        r == (Plugin { install_status: r.install_status, ..p }),
{
    let lift = !blocked && status_equals(&p, "blocked");
    let mut q = p;
    if blocked && !q.installed {
        q.install_status = Some("blocked".to_string());
    } else if lift {
        q.install_status = None;
    }
    q
}

fn words_vec(a: &str, b: &str, c: &str) -> (r: Vec<String>)
    ensures
        strings_view(r@) == seq![a@, b@, c@],
{
    let mut v: Vec<String> = Vec::new();
    v.push(a.to_string());
    v.push(b.to_string());
    v.push(c.to_string());
    assert(strings_view(v@) =~= seq![a@, b@, c@]);
    v
}

/// The arguments of the two install steps: the marketplace's own add
/// command when it is a `plugin` slash command, else `plugin marketplace add
/// <repo>`; the plugin's own install command likewise, else `plugin install
/// name@marketplace`. Timeouts: 60 s and 180 s.
pub fn install_commands(p: &Plugin, marketplace_repo: &String) -> (r: Vec<ClaudeCommand>)
    ensures
        r@.len() == 2,
        r@[0].timeout == 60 && r@[1].timeout == 180,
        strings_view(r@[0].args@) == match p.marketplace_add_command {
            Some(c) => match slash_args(c@) {
                Some(w) => w,
                None => seq!["plugin"@, "marketplace"@, "add"@, marketplace_repo@],
            },
            None => seq!["plugin"@, "marketplace"@, "add"@, marketplace_repo@],
        },
        strings_view(r@[1].args@) == match p.plugin_install_command {
            Some(c) => match slash_args(c@) {
                Some(w) => w,
                None => seq!["plugin"@, "install"@, p.name@ + "@"@ + p.marketplace_name@],
            },
            None => seq!["plugin"@, "install"@, p.name@ + "@"@ + p.marketplace_name@],
        },
{
    let add_default = {
        let mut v = words_vec("plugin", "marketplace", "add");
        let ghost v0 = v@;
        v.push(marketplace_repo.clone());
        assert(strings_view(v@) =~= strings_view(v0).push(marketplace_repo@));
        v
    };
    let add_args = match &p.marketplace_add_command {
        Some(c) => match parse_slash_command_args(c.as_str()) {
            Some(w) => w,
            None => add_default,
        },
        None => add_default,
    };
    let install_default = {
        let mut v: Vec<String> = Vec::new();
        v.push("plugin".to_string());
        v.push("install".to_string());
        v.push(p.plugin_spec());
        assert(strings_view(v@) =~= seq![
            "plugin"@,
            "install"@,
            p.name@ + "@"@ + p.marketplace_name@,
        ]);
        v
    };
    let install_args = match &p.plugin_install_command {
        Some(c) => match parse_slash_command_args(c.as_str()) {
            Some(w) => w,
            None => install_default,
        },
        None => install_default,
    };
    let mut cmds: Vec<ClaudeCommand> = Vec::new();
    cmds.push(ClaudeCommand { args: add_args, timeout: 60 });
    cmds.push(ClaudeCommand { args: install_args, timeout: 180 });
    cmds
}

/// `plugin uninstall name@marketplace`, with a 60 s timeout.
pub fn uninstall_command(p: &Plugin) -> (r: ClaudeCommand)
    ensures
        strings_view(r.args@) == seq![
            "plugin"@,
            "uninstall"@,
            p.name@ + "@"@ + p.marketplace_name@,
        ],
        r.timeout == 60,
{
    let mut v: Vec<String> = Vec::new();
    v.push("plugin".to_string());
    v.push("uninstall".to_string());
    v.push(p.plugin_spec());
    assert(strings_view(v@) =~= seq![
        "plugin"@,
        "uninstall"@,
        p.name@ + "@"@ + p.marketplace_name@,
    ]);
    ClaudeCommand { args: v, timeout: 60 }
}

/// The numbered list of hard-trigger findings, as shown when a plugin is
/// refused.
pub open spec fn numbered(items: Seq<Seq<char>>, k: int) -> Seq<char>
    decreases k,
{
    if k <= 0 {
        Seq::empty()
    } else {
        numbered(items, k - 1) + decimal(k as nat) + ". "@ + items[k - 1] + "\n"@
    }
}

pub fn blocked_message(report: &SecurityReport) -> (r: String)
    ensures
        r@ == "Installation refused: the security scan found severe threats.\n\n"@ + numbered(
            strings_view(report.hard_trigger_issues@),
            report.hard_trigger_issues@.len() as int,
        ),
{
    let ghost items = strings_view(report.hard_trigger_issues@);
    let mut msg = "Installation refused: the security scan found severe threats.\n\n".to_string();
    let ghost head = msg@;
    let mut i: usize = 0;
    while i < report.hard_trigger_issues.len()
        invariant
            items == strings_view(report.hard_trigger_issues@),
            0 <= i <= report.hard_trigger_issues@.len(),
            msg@ == head + numbered(items, i as int),
        decreases report.hard_trigger_issues.len() - i,
    {
        let n = decimal_string(i + 1);
        let a = concat3(msg.as_str(), n.as_str(), ". ");
        msg = concat3(a.as_str(), report.hard_trigger_issues[i].as_str(), "\n");
        i = i + 1;
    }
    msg
}

pub open spec fn severity_word(s: IssueSeverity) -> Seq<char> {
    match s {
        IssueSeverity::Info => "Info"@,
        IssueSeverity::Warning => "Warning"@,
        IssueSeverity::Error => "Error"@,
        IssueSeverity::Critical => "Critical"@,
    }
}

pub open spec fn level_word(l: SecurityLevel) -> Seq<char> {
    match l {
        SecurityLevel::Safe => "Safe"@,
        SecurityLevel::Low => "Low"@,
        SecurityLevel::Medium => "Medium"@,
        SecurityLevel::High => "High"@,
        SecurityLevel::Critical => "Critical"@,
    }
}

/// How an issue is stored on a record: `[file] Severity: description`.
pub open spec fn summary(i: IssueView) -> Seq<char> {
    let head: Seq<char> = match i.file_path {
        Some(f) => "["@ + f + "] "@,
        None => Seq::empty(),
    };
    head + severity_word(i.severity) + ": "@ + i.description
}

pub fn issue_summary(i: &SecurityIssue) -> (r: String)
    ensures
        r@ == summary(i@),
{
    let head = match &i.file_path {
        Some(f) => concat3("[", f.as_str(), "] "),
        None => String::new(),
    };
    let a = concat3(head.as_str(), i.severity.as_str(), ": ");
    concat(a.as_str(), i.description.as_str())
}

/// The stored form of each issue.
pub open spec fn summaries(v: Seq<SecurityIssue>) -> Seq<Seq<char>> {
    Seq::new(v.len(), |t: int| summary(v[t]@))
}

/// A scan written to a record at time `now`.
pub fn record_scan(p: Plugin, report: &SecurityReport, now: i64) -> (r: Plugin)
    ensures
        r.security_score == Some(report.score),
        r.security_level matches Some(l) && l@ == level_word(report.level),
        r.security_issues matches Some(v) && strings_view(v@) == summaries(report.issues@),
        r.scanned_at == Some(now),
        r.id == p.id && r.installed == p.installed && r.install_status == p.install_status,
{
    let mut v: Vec<String> = Vec::new();
    let mut k: usize = 0;
    while k < report.issues.len()
        invariant
            0 <= k <= report.issues@.len(),
            v@.len() == k,
            forall|t: int| 0 <= t < k ==> (#[trigger] v@[t])@ == summary(report.issues@[t]@),
        decreases report.issues.len() - k,
    {
        v.push(issue_summary(&report.issues[k]));
        k = k + 1;
    }
    assert(strings_view(v@) =~= summaries(report.issues@));
    let mut q = p;
    q.security_score = Some(report.score);
    q.security_level = Some(report.level.as_str().to_string());
    q.security_issues = Some(v);
    q.scanned_at = Some(now);
    q
}

} // verus!
