use agent_skills_guard::cli::{line_ending, ClaudeCli, ClaudeCommand, PromptWatcher};
use agent_skills_guard::cli_args::{
    extract_marketplace_repo_from_command, marketplace_repo_url, parse_claude_plugin_id,
    parse_slash_command_args,
};
use agent_skills_guard::lifecycle::{
    blocked_message, install_commands, issue_summary, marketplace_status, next_state,
    record_block, record_install, record_uninstall, LifecycleEvent, LifecycleState,
};
use agent_skills_guard::listing::parse_marketplace_list_text_with_home;
use agent_skills_guard::manifest::carry_over_state;
use agent_skills_guard::models::{
    author_to_display, localized_text, AuthorField, ClaudeAvailablePluginEntry,
    ClaudeInstalledPluginEntry, ClaudeMarketplace, FeaturedMarketplaceOwner, LocalizedText,
    Plugin, Skill,
};
use agent_skills_guard::outcome::CommandOutcome;
use agent_skills_guard::reconcile::sync_claude_installed_state;
use agent_skills_guard::report::{merge_reports, IssueCategory, IssueSeverity, SecurityIssue, SecurityLevel, SecurityReport};
use agent_skills_guard::source_path::{normalize_source, resolve_source_path, SourcePathError};
use agent_skills_guard::updates::{plugin_updates, upgrade_candidates};

fn installed_plugin(name: &str, mp: &str) -> Plugin {
    let mut p = Plugin::new(
        name.to_string(),
        "https://github.com/acme/tools".to_string(),
        mp.to_string(),
        ".".to_string(),
    );
    p.installed = true;
    p.installed_at = Some(1_700_000_000_000);
    p.installed_version = Some("1.0.0".to_string());
    p.claude_scope = Some("user".to_string());
    p
}

#[test]
fn reconciliation_uninstalls_missing_entity() {
    let local = vec![installed_plugin("gone", "market"), installed_plugin("kept", "market")];
    let entries = vec![ClaudeInstalledPluginEntry {
        id: "kept@market".to_string(),
        version: Some("2.0.0".to_string()),
        scope: Some("project".to_string()),
        enabled: Some(true),
        install_path: Some("/p/kept".to_string()),
        installed_at: Some(5),
        last_updated: Some(6),
    }];
    let out = sync_claude_installed_state(local, &entries, &vec![]);
    assert_eq!(out.len(), 2);
    assert!(!out[0].installed);
    assert_eq!(out[0].installed_at, None);
    assert_eq!(out[0].installed_version, None);
    assert_eq!(out[0].claude_scope, None);
    assert!(out[1].installed);
    assert_eq!(out[1].installed_version.as_deref(), Some("2.0.0"));
    assert_eq!(out[1].claude_install_path.as_deref(), Some("/p/kept"));
    assert_eq!(out[1].installed_at, Some(1_700_000_000_000));
}

#[test]
fn reconciliation_adds_externally_installed() {
    let entries = vec![ClaudeInstalledPluginEntry {
        id: "tool@other".to_string(),
        version: Some("0.1.0".to_string()),
        scope: None,
        enabled: None,
        install_path: None,
        installed_at: Some(9),
        last_updated: None,
    }];
    let urls = vec![("other".to_string(), "https://github.com/o/other".to_string())];
    let out = sync_claude_installed_state(vec![], &entries, &urls);
    assert_eq!(out.len(), 1);
    assert!(out[0].installed);
    assert_eq!(out[0].claude_id.as_deref(), Some("tool@other"));
    assert_eq!(out[0].name, "tool");
    assert_eq!(out[0].repository_url, "https://github.com/o/other");
    assert_eq!(out[0].repository_owner.as_deref(), Some("o"));
    assert_eq!(out[0].discovery_source.as_deref(), Some("claude_cli"));
    assert_eq!(out[0].installed_at, Some(9));
    let again = sync_claude_installed_state(out, &entries, &urls);
    assert_eq!(again.len(), 1);
}

#[test]
fn plugin_ids_split_at_last_at() {
    assert_eq!(
        parse_claude_plugin_id("a@b@c"),
        Some(("a@b".to_string(), "c".to_string()))
    );
    assert_eq!(parse_claude_plugin_id("@x"), None);
    assert_eq!(parse_claude_plugin_id("x@"), None);
    assert_eq!(parse_claude_plugin_id("plain"), None);
}

#[test]
fn slash_commands_and_repos() {
    assert_eq!(
        parse_slash_command_args("  /plugin install  foo@bar "),
        Some(vec!["plugin".to_string(), "install".to_string(), "foo@bar".to_string()])
    );
    assert_eq!(parse_slash_command_args("/other thing"), None);
    assert_eq!(parse_slash_command_args("   "), None);
    assert_eq!(
        extract_marketplace_repo_from_command("/plugin marketplace add acme/market"),
        Some("acme/market".to_string())
    );
    assert_eq!(extract_marketplace_repo_from_command("/plugin install x@y"), None);
    assert_eq!(
        marketplace_repo_url(&Some(" acme/market ".to_string())),
        Some("https://github.com/acme/market".to_string())
    );
    assert_eq!(
        marketplace_repo_url(&Some("https://git.example/x".to_string())),
        Some("https://git.example/x".to_string())
    );
    assert_eq!(marketplace_repo_url(&Some("  ".to_string())), None);
    assert_eq!(marketplace_repo_url(&None), None);
}

#[test]
fn source_paths_are_guarded() {
    assert_eq!(normalize_source(" ./plugins/foo/ "), "plugins/foo");
    assert_eq!(normalize_source("./"), ".");
    assert_eq!(normalize_source(""), ".");
    assert_eq!(resolve_source_path("/repo", "."), Ok("/repo".to_string()));
    assert_eq!(resolve_source_path("/repo", "./a/b"), Ok("/repo/a/b".to_string()));
    assert_eq!(resolve_source_path("/repo/", "a"), Ok("/repo/a".to_string()));
    assert_eq!(resolve_source_path("/repo", "../etc"), Err(SourcePathError::OutsideRepository));
    assert_eq!(resolve_source_path("/repo", "a/../../x"), Err(SourcePathError::OutsideRepository));
    assert_eq!(resolve_source_path("/repo", "/etc"), Err(SourcePathError::OutsideRepository));
    assert_eq!(resolve_source_path("/repo", "a..b"), Ok("/repo/a..b".to_string()));
}

#[test]
fn lifecycle_transitions() {
    type S = LifecycleState;
    type E = LifecycleEvent;
    assert_eq!(next_state(S::NotPrepared, E::Scanned { blocked: true }), Some(S::Blocked));
    assert_eq!(next_state(S::Blocked, E::Installed { success: true }), None);
    assert_eq!(next_state(S::Ready, E::Installed { success: true }), Some(S::Installed));
    assert_eq!(next_state(S::Ready, E::Installed { success: false }), Some(S::Failed));
    assert_eq!(next_state(S::Blocked, E::Cancelled), Some(S::NotPrepared));
    assert_eq!(next_state(S::NotPrepared, E::Uninstalled { success: true }), None);
    assert_eq!(
        next_state(S::Installed, E::Uninstalled { success: true }),
        Some(S::Uninstalled)
    );
}

#[test]
fn install_and_uninstall_records() {
    let mut p = Plugin::new("foo".to_string(), "local".to_string(), "mk".to_string(), ".".to_string());
    p.staging_path = Some("/stage".to_string());
    assert_eq!(p.id, "local::mk::foo");
    assert_eq!(p.plugin_spec(), "foo@mk");
    assert_eq!(p.repository_owner.as_deref(), Some("local"));
    let done = record_install(p, CommandOutcome { success: true, already: true }, "log".to_string(), 42);
    assert!(done.installed);
    assert_eq!(done.install_status.as_deref(), Some("already_installed"));
    assert_eq!(done.installed_at, Some(42));
    let removed = record_uninstall(done, CommandOutcome { success: true, already: false }, "bye".to_string());
    assert!(!removed.installed);
    assert_eq!(removed.install_status.as_deref(), Some("uninstalled"));
    assert_eq!(marketplace_status(CommandOutcome { success: false, already: false }), "failed");
    let blocked = record_block(removed, true);
    assert_eq!(blocked.install_status.as_deref(), Some("blocked"));
}

#[test]
fn install_commands_default_and_custom() {
    let mut p = Plugin::new("foo".to_string(), "https://github.com/a/b".to_string(), "mk".to_string(), ".".to_string());
    let cmds = install_commands(&p, &"a/b".to_string());
    assert_eq!(cmds[0].args, vec!["plugin", "marketplace", "add", "a/b"]);
    assert_eq!(cmds[1].args, vec!["plugin", "install", "foo@mk"]);
    assert_eq!((cmds[0].timeout, cmds[1].timeout), (60, 180));
    p.plugin_install_command = Some("/plugin install foo@mk --scope project".to_string());
    let cmds = install_commands(&p, &"a/b".to_string());
    assert_eq!(cmds[1].args, vec!["plugin", "install", "foo@mk", "--scope", "project"]);
}

#[test]
fn cli_batch_result() {
    let cli = ClaudeCli::new("tool".to_string());
    assert_eq!(cli.command(), "tool");
    let cmds = vec![
        ClaudeCommand { args: vec!["plugin".to_string(), "list".to_string()], timeout: 15 },
        ClaudeCommand { args: vec![], timeout: 15 },
    ];
    let r = cli.run(&cmds, vec!["one\n".to_string(), "two".to_string()]);
    assert_eq!(r.outputs[0].command, "plugin list");
    assert_eq!(r.outputs[1].command, "");
    assert_eq!(r.outputs[1].output, "two");
    assert_eq!(r.raw_log, "one\ntwo");
    assert_eq!(line_ending(true), vec![13, 10]);
    assert_eq!(line_ending(false), vec![10]);
}

#[test]
fn prompt_watcher_answers_at_most_three_times() {
    let mut w = PromptWatcher::new(1000);
    assert!(!w.on_output("loading...", 0));
    assert!(w.on_output("Quick safety check", 10));
    assert!(!w.on_output(" ", 100));
    assert!(w.on_output(" ", 500));
    assert!(w.on_output(" ", 1000));
    assert!(!w.on_output(" ", 2000));
    assert!(w.reading_done(1000, false, false));
    assert!(!w.reading_done(999, false, false));
    w.on_drain("tail");
    assert!(w.into_output().ends_with("tail"));
}

fn report(score: i32, blocked: bool, file: &str) -> SecurityReport {
    SecurityReport {
        skill_id: "x".to_string(),
        score,
        level: SecurityLevel::from_score(score),
        issues: vec![SecurityIssue {
            severity: IssueSeverity::Warning,
            category: IssueCategory::FileSystem,
            description: "d".to_string(),
            line_number: Some(1),
            code_snippet: None,
            file_path: Some(file.to_string()),
            rule_id: "R".to_string(),
        }],
        recommendations: vec!["same".to_string()],
        blocked,
        hard_trigger_issues: if blocked { vec!["boom".to_string()] } else { vec![] },
        scanned_files: vec![file.to_string()],
        skipped_files: vec![],
        partial_scan: false,
    }
}

#[test]
fn merged_report_takes_minimum_and_tags_paths() {
    let m = merge_reports(
        &vec![("a".to_string(), report(90, false, "x.py")), ("b".to_string(), report(40, true, "y.sh"))],
        "mk",
    );
    assert_eq!(m.skill_id, "marketplace::mk");
    assert_eq!(m.score, 40);
    assert_eq!(m.level, SecurityLevel::High);
    assert!(m.blocked);
    assert!(!m.partial_scan);
    assert_eq!(m.issues[1].file_path.as_deref(), Some("b/y.sh"));
    assert_eq!(m.scanned_files, vec!["a/x.py".to_string(), "b/y.sh".to_string()]);
    assert_eq!(m.hard_trigger_issues, vec!["[b] boom".to_string()]);
    assert_eq!(m.recommendations, vec!["same".to_string()]);
    assert_eq!(issue_summary(&m.issues[0]), "[a/x.py] Warning: d");
    assert_eq!(
        blocked_message(&m),
        "Installation refused: the security scan found severe threats.\n\n1. [b] boom\n"
    );
    let empty = merge_reports(&vec![], "mk");
    assert_eq!(empty.score, 100);
}

#[test]
fn marketplace_list_text() {
    let out = "\u{1b}[1mConfigured marketplaces:\u{1b}[0m\n  > market-one\n    Source: GitHub (acme/market-one)\n  > local-one\n    source: Directory (/tmp/x)\n  > url-one\n    Source: URL (https://host/m.git)\n";
    let home = Some("/home/u".to_string());
    let v: Vec<ClaudeMarketplace> = parse_marketplace_list_text_with_home(out, &home, "tool");
    assert_eq!(v.len(), 3);
    assert_eq!(v[0].name, "market-one");
    assert_eq!(v[0].source.as_deref(), Some("GitHub"));
    assert_eq!(v[0].repo.as_deref(), Some("acme/market-one"));
    assert_eq!(v[0].repository_url.as_deref(), Some("https://github.com/acme/market-one"));
    assert_eq!(v[0].install_location.as_deref(), Some("/home/u/.tool/plugins/marketplaces/market-one"));
    assert_eq!(v[1].repo.as_deref(), Some("/tmp/x"));
    assert_eq!(v[1].repository_url.as_deref(), Some("https://github.com//tmp/x"));
    assert_eq!(v[2].repository_url.as_deref(), Some("https://host/m.git"));
}

#[test]
fn update_checks() {
    let mut p = installed_plugin("foo", "bar");
    p.claude_id = Some("foo@bar".to_string());
    let installed = vec![ClaudeInstalledPluginEntry {
        id: "foo@bar".to_string(),
        version: Some("1.0.0".to_string()),
        scope: None,
        enabled: None,
        install_path: None,
        installed_at: None,
        last_updated: None,
    }];
    let available = vec![ClaudeAvailablePluginEntry {
        plugin_id: "foo@bar".to_string(),
        name: None,
        marketplace_name: Some("bar".to_string()),
        version: Some("1.0.1".to_string()),
    }];
    let ups = plugin_updates(&installed, &available, &vec![p]);
    assert_eq!(ups, vec![(
        "https://github.com/acme/tools::bar::foo".to_string(),
        "1.0.1".to_string()
    )]);
}

#[test]
fn skill_upgrade_candidates_prefer_official() {
    let mut skill = Skill::new("Superpowers ".to_string(), "r".to_string(), "SKILL.md".to_string());
    skill.installed = true;
    let available = vec![
        ClaudeAvailablePluginEntry {
            plugin_id: "superpowers@community".to_string(),
            name: Some("superpowers".to_string()),
            marketplace_name: Some("community".to_string()),
            version: Some("1.0".to_string()),
        },
        ClaudeAvailablePluginEntry {
            plugin_id: "superpowers@official".to_string(),
            name: None,
            marketplace_name: Some("official".to_string()),
            version: Some("2.0".to_string()),
        },
    ];
    let markets = vec![ClaudeMarketplace {
        name: "official".to_string(),
        source: None,
        repo: Some("acme/official".to_string()),
        repository_url: Some("https://github.com/acme/official".to_string()),
        install_location: None,
    }];
    let c = upgrade_candidates(&vec![skill], &available, &vec![], &markets, &"official".to_string());
    assert_eq!(c.len(), 1);
    assert_eq!(c[0].plugin_id, "superpowers@official");
    assert_eq!(c[0].marketplace_repo.as_deref(), Some("acme/official"));
    assert_eq!(c[0].latest_version.as_deref(), Some("2.0"));
    assert_eq!(c[0].reason, "name_match");
    let none = upgrade_candidates(
        &vec![],
        &available,
        &vec!["superpowers@official".to_string()],
        &markets,
        &"official".to_string(),
    );
    assert!(none.is_empty());
}

#[test]
fn display_helpers() {
    let owner = FeaturedMarketplaceOwner { name: Some("Ann".to_string()), email: Some("a@x".to_string()) };
    assert_eq!(author_to_display(&owner).as_deref(), Some("Ann <a@x>"));
    let only_mail = FeaturedMarketplaceOwner { name: None, email: Some("a@x".to_string()) };
    assert_eq!(author_to_display(&only_mail).as_deref(), Some("a@x"));
    assert_eq!(AuthorField::Simple("Bo".to_string()).to_display().as_deref(), Some("Bo"));
    let t = LocalizedText { en: "Hello".to_string(), zh: "你好".to_string() };
    assert_eq!(localized_text(&t, "zh-CN"), "你好");
    assert_eq!(localized_text(&t, "en"), "Hello");
}

#[test]
fn carried_state_keeps_install_facts() {
    let existing = installed_plugin("foo", "mk");
    let mut old = existing;
    old.install_status = Some("unsupported".to_string());
    old.security_issues = Some(vec!["x".to_string()]);
    let fresh = Plugin::new("foo".to_string(), "https://github.com/acme/tools".to_string(), "mk".to_string(), ".".to_string());
    let merged = carry_over_state(fresh, &old);
    assert!(merged.installed);
    assert_eq!(merged.install_status, None);
    assert_eq!(merged.security_issues, Some(vec!["x".to_string()]));
    assert_eq!(merged.repository_owner.as_deref(), Some("acme"));
}
