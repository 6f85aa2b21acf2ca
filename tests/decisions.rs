use agent_skills_guard::featured::{
    enrich_installed_featured, featured_carry_over, featured_plugin, find_config_entry,
    is_stale_featured,
};
use agent_skills_guard::lifecycle::record_scan;
use agent_skills_guard::manifest::{
    plugin_from_entry, plugins_from_manifest, prepare_carry_over, resolve_marketplace_plugins,
    MarketplaceManifest, MarketplacePluginEntry, PluginManifest,
};
use agent_skills_guard::models::{
    AuthorField, FeaturedMarketplace, FeaturedMarketplaceOwner, FeaturedMarketplacePlugin,
    LocalizedText, Plugin,
};
use agent_skills_guard::orchestration::{
    github_repo_slug, marketplace_head_update, marketplace_repo_of, parse_issue_line,
    remote_git_url, removal_plan, skill_install_allowed, update_command,
};
use agent_skills_guard::reconcile::sync_claude_installed_state;
use agent_skills_guard::lifecycle::{
    can_cancel, can_install, record_block, record_cancel, record_staged, scan_parallelism,
};
use agent_skills_guard::scanner::{EntryKind, ScanOptions, TreeEntry};
use agent_skills_guard::report::IssueSeverity;
use agent_skills_guard::scanner::SecurityScanner;
use agent_skills_guard::source_path::SourcePathError;

fn text(en: &str) -> LocalizedText {
    LocalizedText { en: en.to_string(), zh: format!("{}-zh", en) }
}

fn market() -> FeaturedMarketplace {
    FeaturedMarketplace {
        marketplace_name: "mk".to_string(),
        marketplace_repo: "acme/mk".to_string(),
        repository_url: None,
        marketplace_add_command: Some("/plugin marketplace add acme/mk".to_string()),
        description: text("market"),
        owner: Some(FeaturedMarketplaceOwner { name: Some("Acme".to_string()), email: None }),
        tags: vec![],
        featured: true,
        plugins: vec![FeaturedMarketplacePlugin {
            name: "Formatter".to_string(),
            install_command: Some("/plugin install formatter@mk".to_string()),
            description: text("formats"),
            version: Some("1.2.0".to_string()),
            author: None,
            source: None,
            tags: vec![],
            featured: true,
        }],
    }
}

#[test]
fn github_slugs() {
    assert_eq!(github_repo_slug("https://github.com/acme/tools.git").as_deref(), Some("acme/tools"));
    assert_eq!(github_repo_slug("https://github.com/acme/tools/tree/main").as_deref(), Some("acme/tools"));
    assert_eq!(github_repo_slug("https://github.com/acme").as_deref(), None);
    assert_eq!(github_repo_slug("https://gitlab.com/acme/tools").as_deref(), None);
    assert_eq!(remote_git_url("acme/tools"), "https://github.com/acme/tools.git");
    assert_eq!(remote_git_url("https://x/y.git"), "https://x/y.git");
}

#[test]
fn marketplace_repo_choice() {
    let mut p = Plugin::new("a".to_string(), "https://github.com/acme/tools".to_string(), "mk".to_string(), ".".to_string());
    assert_eq!(marketplace_repo_of(&p).as_deref(), Some("acme/tools"));
    p.marketplace_add_command = Some("/plugin marketplace add other/place".to_string());
    assert_eq!(marketplace_repo_of(&p).as_deref(), Some("other/place"));
    let cmd = update_command(&p);
    assert_eq!(cmd.args, vec!["plugin", "update", "--scope", "user", "a@mk"]);
    assert_eq!(cmd.timeout, 180);
}

#[test]
fn removal_plans() {
    let (delete, ok) = removal_plan(&vec![Some(true), None, Some(false)], true);
    assert_eq!(delete, vec![true, true, false]);
    assert!(!ok);
    let (delete, ok) = removal_plan(&vec![Some(true), None], false);
    assert_eq!(delete, vec![false, false]);
    assert!(!ok);
    let (_, ok) = removal_plan(&vec![Some(true)], true);
    assert!(ok);
}

#[test]
fn head_comparison() {
    let remote = "0123456789abcdef0123\tHEAD\n";
    assert_eq!(marketplace_head_update("fff\n", remote).as_deref(), Some("0123456789ab"));
    assert_eq!(marketplace_head_update("0123456789abcdef0123\n", remote), None);
    assert_eq!(marketplace_head_update("", remote), None);
    assert_eq!(marketplace_head_update("abc", "  "), None);
}

#[test]
fn stored_issue_lines() {
    assert_eq!(
        parse_issue_line("Critical: Deletes the root directory"),
        Some((IssueSeverity::Critical, "Deletes the root directory".to_string()))
    );
    assert_eq!(parse_issue_line("Odd: x: y"), Some((IssueSeverity::Info, "x: y".to_string())));
    assert_eq!(parse_issue_line("no separator"), None);
    assert!(!skill_install_allowed(Some(49)));
    assert!(skill_install_allowed(Some(50)));
    assert!(skill_install_allowed(None));
}

#[test]
fn featured_records() {
    let m = market();
    let p = featured_plugin(&m.plugins[0], &m, "zh-CN");
    assert_eq!(p.repository_url, "https://github.com/acme/mk");
    assert_eq!(p.source, ".");
    assert_eq!(p.description.as_deref(), Some("formats-zh"));
    assert_eq!(p.author.as_deref(), Some("Acme"));
    assert_eq!(p.discovery_source.as_deref(), Some("featured_marketplace"));
    assert_eq!(find_config_entry(&m, &"formatter".to_string()), Some(0));
    assert_eq!(find_config_entry(&m, &"other".to_string()), None);
    let base = Plugin::new("formatter".to_string(), "u".to_string(), "mk".to_string(), ".".to_string());
    let enriched = enrich_installed_featured(base, Some(&m.plugins[0]), &m, "en");
    assert_eq!(enriched.description.as_deref(), Some("formats"));
    assert_eq!(enriched.version.as_deref(), Some("1.2.0"));
    assert_eq!(enriched.plugin_install_command.as_deref(), Some("/plugin install formatter@mk"));
    let mut old = Plugin::new("x".to_string(), "u".to_string(), "mk".to_string(), ".".to_string());
    old.installed = true;
    old.install_status = Some("unsupported".to_string());
    let merged = featured_carry_over(enriched, &old);
    assert!(merged.installed);
    assert_eq!(merged.install_status, None);
    let stale = featured_plugin(&m.plugins[0], &m, "en");
    assert!(is_stale_featured(&stale, &vec![]));
    assert!(!is_stale_featured(&stale, &vec![stale.id.clone()]));
}

fn entry(name: &str, source: &str) -> MarketplacePluginEntry {
    MarketplacePluginEntry {
        name: name.to_string(),
        description: Some("from marketplace".to_string()),
        version: None,
        source: source.to_string(),
        author: Some(AuthorField::Detailed { name: Some("Ann".to_string()), email: Some("a@x".to_string()) }),
    }
}

#[test]
fn manifest_resolution() {
    let manifest = MarketplaceManifest {
        name: "mk".to_string(),
        description: None,
        plugins: vec![entry("one", "./plugins/one"), entry("two", "../escape")],
    };
    let own = vec![
        Some(PluginManifest { name: "One".to_string(), description: None, version: Some("2.0".to_string()), author: None }),
        None,
    ];
    let url = "https://github.com/acme/mk".to_string();
    assert_eq!(
        resolve_marketplace_plugins(&manifest, &own, "/r", &url).err(),
        Some(SourcePathError::OutsideRepository)
    );
    let listed = plugins_from_manifest(&manifest, &own, "/r", &url, &vec![]);
    assert_eq!(listed.len(), 2);
    assert!(listed[1].is_none());
    let one = listed[0].as_ref().unwrap();
    assert_eq!(one.name, "One");
    assert_eq!(one.source, "plugins/one");
    assert_eq!(one.version.as_deref(), Some("2.0"));
    assert_eq!(one.description.as_deref(), Some("from marketplace"));
    assert_eq!(one.author.as_deref(), Some("Ann <a@x>"));
    let single = plugin_from_entry(&manifest.plugins[0], &None, &url, &"mk".to_string());
    assert_eq!(single.name, "one");
    let good = MarketplaceManifest { name: "mk".to_string(), description: None, plugins: vec![entry("one", ".")] };
    let ok = resolve_marketplace_plugins(&good, &vec![None], "/r", &url).ok().unwrap();
    assert_eq!(ok[0].1, "/r");
    let mut existing = Plugin::new("one".to_string(), url.clone(), "mk".to_string(), ".".to_string());
    existing.installed = true;
    existing.install_status = Some("installed".to_string());
    let fresh = Plugin::new("one".to_string(), url.clone(), "mk".to_string(), ".".to_string());
    let carried = prepare_carry_over(fresh, &existing);
    assert!(carried.installed);
    assert_eq!(carried.install_status.as_deref(), Some("installed"));
}

#[test]
fn scans_written_to_records() {
    let s = SecurityScanner::new().unwrap();
    let report = s.scan_file("chmod 777 x\n", "SKILL.md");
    let p = Plugin::new("a".to_string(), "u".to_string(), "mk".to_string(), ".".to_string());
    let r = record_scan(p, &report, 7);
    assert_eq!(r.security_score, Some(90));
    assert_eq!(r.security_level.as_deref(), Some("Safe"));
    assert_eq!(
        r.security_issues,
        Some(vec!["[SKILL.md] Warning: Sets world-writable permissions".to_string()])
    );
    assert_eq!(r.scanned_at, Some(7));
    assert_eq!(
        s.generate_recommendations(&report.issues, 40),
        vec![
            "Severe security risk: installing this package is not recommended.".to_string(),
            "Operates on the file system: check the paths it touches.".to_string(),
        ]
    );
}

#[test]
fn missing_records_flip_back() {
    let mut a = Plugin::new("a".to_string(), "u".to_string(), "mk".to_string(), ".".to_string());
    a.installed = true;
    a.installed_at = Some(3);
    let mut b = Plugin::new("b".to_string(), "u".to_string(), "mk".to_string(), ".".to_string());
    b.installed = true;
    let listing = vec![agent_skills_guard::models::ClaudeInstalledPluginEntry {
        id: "b@mk".to_string(),
        version: Some("3".to_string()),
        scope: None,
        enabled: None,
        install_path: None,
        installed_at: Some(1),
        last_updated: None,
    }];
    let out = sync_claude_installed_state(vec![a, b], &listing, &vec![]);
    assert_eq!(out.len(), 2);
    assert!(!out[0].installed);
    assert_eq!(out[0].installed_at, None);
    assert!(out[1].installed);
    assert_eq!(out[1].installed_version.as_deref(), Some("3"));
    let again = sync_claude_installed_state(out, &listing, &vec![]);
    assert_eq!(again.len(), 2);
    assert!(!again[0].installed);
    assert_eq!(again[1].installed_version.as_deref(), Some("3"));
    assert_eq!(again[1].installed_at, Some(1));
}

#[test]
fn install_only_from_ready() {
    let mut p = Plugin::new("a".to_string(), "u".to_string(), "mk".to_string(), ".".to_string());
    assert!(!can_install(&p));
    p.staging_path = Some("/stage".to_string());
    p.security_score = Some(90);
    assert!(can_install(&p));
    let blocked = record_block(p, true);
    assert!(!can_install(&blocked));
    assert_eq!(blocked.security_score, Some(90));
    assert_eq!(blocked.staging_path.as_deref(), Some("/stage"));
    let passing = record_block(blocked, false);
    assert_eq!(passing.install_status, None);
    assert!(can_install(&passing));
}

#[test]
fn empty_root_keeps_sources_relative() {
    assert_eq!(
        agent_skills_guard::source_path::resolve_source_path("", "./x"),
        Ok("x".to_string())
    );
    assert_eq!(
        agent_skills_guard::source_path::resolve_source_path("", "."),
        Ok("".to_string())
    );
}

#[test]
fn listed_unsplittable_id_stays_installed() {
    let mut p = Plugin::new("a".to_string(), "u".to_string(), "mk".to_string(), ".".to_string());
    p.installed = true;
    p.claude_id = Some("weird".to_string());
    let listing = vec![agent_skills_guard::models::ClaudeInstalledPluginEntry {
        id: "weird".to_string(),
        version: None,
        scope: None,
        enabled: None,
        install_path: None,
        installed_at: None,
        last_updated: None,
    }];
    let out = sync_claude_installed_state(vec![p], &listing, &vec![]);
    assert_eq!(out.len(), 1);
    assert!(out[0].installed);
}

#[test]
fn cancel_and_parallelism_rules() {
    let p = Plugin::new("a".to_string(), "u".to_string(), "mk".to_string(), ".".to_string());
    assert!(!can_cancel(&p));
    let staged = record_staged(p, "/s".to_string());
    assert!(can_cancel(&staged));
    let cancelled = record_cancel(staged);
    assert_eq!(cancelled.staging_path, None);
    assert_eq!(scan_parallelism(None), 3);
    assert_eq!(scan_parallelism(Some(0)), 1);
    assert_eq!(scan_parallelism(Some(20)), 8);
    assert_eq!(scan_parallelism(Some(5)), 5);
}

#[test]
fn unreadable_file_is_a_warning() {
    let s = SecurityScanner::new().unwrap();
    let entries = vec![TreeEntry {
        path: "locked.sh".to_string(),
        kind: EntryKind::Unreadable,
        depth: 1,
        content: vec![],
        truncated: false,
    }];
    let r = s.scan_entries(&entries, "demo", ScanOptions { skip_readme: false });
    assert!(r.partial_scan);
    assert!(!r.blocked);
    assert_eq!(r.skipped_files, vec!["locked.sh".to_string()]);
    assert!(r.issues.iter().any(|i| i.rule_id == "UNREADABLE" && i.severity == IssueSeverity::Warning));
}
