//! The entities the lifecycle works on: plugins, skills, featured
//! marketplaces, and the results handed back to the user interface.
//! Timestamps are milliseconds since the Unix epoch.

use vstd::prelude::*;
use crate::text::{chars_of, concat, concat3, find_str, first_occurrence, substring};

verus! {

/// A plugin as the local store keeps it.
pub struct Plugin {
    pub id: String,
    /// The CLI's identifier, `name@marketplace`.
    pub claude_id: Option<String>,
    pub name: String,
    pub description: Option<String>,
    pub version: Option<String>,
    /// The version actually installed, as the CLI lists it.
    pub installed_version: Option<String>,
    pub author: Option<String>,
    pub repository_url: String,
    pub repository_owner: Option<String>,
    pub marketplace_name: String,
    pub source: String,
    /// Where the record came from: `repository_scan`, `claude_cli`, or
    /// `featured_marketplace`.
    pub discovery_source: Option<String>,
    pub marketplace_add_command: Option<String>,
    pub plugin_install_command: Option<String>,
    pub installed: bool,
    pub installed_at: Option<i64>,
    pub claude_scope: Option<String>,
    pub claude_enabled: Option<bool>,
    pub claude_install_path: Option<String>,
    pub claude_last_updated: Option<i64>,
    pub security_score: Option<i32>,
    pub security_issues: Option<Vec<String>>,
    pub security_level: Option<String>,
    pub scanned_at: Option<i64>,
    pub staging_path: Option<String>,
    pub install_log: Option<String>,
    pub install_status: Option<String>,
}

/// The owner part of a GitHub URL (`local` for local plugins, `unknown`
/// otherwise).
pub open spec fn repository_owner(url: Seq<char>) -> Seq<char> {
    if url == "local"@ {
        "local"@
    } else {
        let k = first_occurrence(url, "github.com/"@, 0);
        if k >= url.len() {
            "unknown"@
        } else {
            let after = url.subrange(k + 11, url.len() as int);
            let j = first_occurrence(after, "/"@, 0);
            if j >= after.len() {
                "unknown"@
            } else {
                after.subrange(0, j)
            }
        }
    }
}

pub fn parse_repository_owner(repository_url: &str) -> (r: String)
    ensures
        r@ == repository_owner(repository_url@),
{
    let s = chars_of(repository_url);
    proof {
        reveal_strlit("github.com/");
    }
    assert("github.com/"@.len() == 11);
    if repository_url.to_string() == "local".to_string() {
        return "local".to_string();
    }
    match find_str(&s, "github.com/") {
        None => "unknown".to_string(),
        Some(k) => {
            assert(crate::text::occurs_at(s@, "github.com/"@, k as int)) by {
                lemma_first_occurrence_found(s@, "github.com/"@, 0);
            }
            let n = s.len();
            assert(k + 11 <= n);
            let after_v = chars_sub(&s, k + 11, n);
            match find_str(&after_v, "/") {
                None => "unknown".to_string(),
                Some(j) => substring(&after_v, 0, j),
            }
        },
    }
}

proof fn lemma_first_occurrence_found(s: Seq<char>, p: Seq<char>, i: int)
    requires
        0 <= i,
        first_occurrence(s, p, i) < s.len(),
    ensures
        crate::text::occurs_at(s, p, first_occurrence(s, p, i)),
    decreases s.len() - i,
{
    if i < s.len() && !crate::text::occurs_at(s, p, i) {
        lemma_first_occurrence_found(s, p, i + 1);
    }
}

fn chars_sub(s: &Vec<char>, lo: usize, hi: usize) -> (r: Vec<char>)
    requires
        lo <= hi <= s@.len(),
    ensures
        r@ == s@.subrange(lo as int, hi as int),
{
    let mut out: Vec<char> = Vec::new();
    let mut k: usize = lo;
    while k < hi
        invariant
            lo <= k <= hi <= s@.len(),
            out@ == s@.subrange(lo as int, k as int),
        decreases hi - k,
    {
        out.push(s[k]);
        assert(s@.subrange(lo as int, k + 1) == s@.subrange(lo as int, k as int).push(
            s@[k as int],
        ));
        k = k + 1;
    }
    out
}

/// `r` is the record `Plugin::new` makes for a plugin `name` of marketplace
/// `mp` from repository `url`, with source `source`.
pub open spec fn new_plugin(r: Plugin, name: Seq<char>, url: Seq<char>, mp: Seq<char>, source: Seq<char>) -> bool {
    &&& r.id@ == url + "::"@ + mp + "::"@ + name
    &&& (r.claude_id matches Some(c) && c@ == name + "@"@ + mp)
    &&& r.name@ == name
    &&& r.repository_url@ == url
    &&& (r.repository_owner matches Some(o) && o@ == repository_owner(url))
    &&& r.marketplace_name@ == mp
    &&& r.source@ == source
    &&& (r.discovery_source matches Some(d) && d@ == "repository_scan"@)
    &&& !r.installed
    &&& r.description is None && r.version is None && r.installed_version is None
    &&& r.author is None && r.marketplace_add_command is None
    &&& r.plugin_install_command is None && r.installed_at is None
    &&& r.claude_scope is None && r.claude_enabled is None && r.claude_install_path is None
    &&& r.claude_last_updated is None && r.security_score is None
    &&& r.security_issues is None && r.security_level is None && r.scanned_at is None
    &&& r.staging_path is None && r.install_log is None && r.install_status is None
}

impl Plugin {
    /// A freshly discovered plugin of marketplace `marketplace_name`.
    pub fn new(name: String, repository_url: String, marketplace_name: String, source: String) -> (r:
        Plugin)
        ensures
            new_plugin(r, name@, repository_url@, marketplace_name@, source@),
    {
        let owner = parse_repository_owner(repository_url.as_str());
        let a = concat3(repository_url.as_str(), "::", marketplace_name.as_str());
        let id = concat3(a.as_str(), "::", name.as_str());
        let claude_id = concat3(name.as_str(), "@", marketplace_name.as_str());
        Plugin {
            id,
            claude_id: Some(claude_id),
            name,
            description: None,
            version: None,
            installed_version: None,
            author: None,
            repository_url,
            repository_owner: Some(owner),
            marketplace_name,
            source,
            discovery_source: Some("repository_scan".to_string()),
            marketplace_add_command: None,
            plugin_install_command: None,
            installed: false,
            installed_at: None,
            claude_scope: None,
            claude_enabled: None,
            claude_install_path: None,
            claude_last_updated: None,
            security_score: None,
            security_issues: None,
            security_level: None,
            scanned_at: None,
            staging_path: None,
            install_log: None,
            install_status: None,
        }
    }

    /// `name@marketplace`, the argument of `plugin install`.
    pub fn plugin_spec(&self) -> (r: String)
        ensures
            r@ == self.name@ + "@"@ + self.marketplace_name@,
    {
        concat3(self.name.as_str(), "@", self.marketplace_name.as_str())
    }
}

/// A skill as the local store keeps it.
pub struct Skill {
    pub id: String,
    pub name: String,
    pub description: Option<String>,
    pub repository_url: String,
    pub file_path: String,
    pub version: Option<String>,
    pub author: Option<String>,
    pub installed: bool,
    pub installed_at: Option<i64>,
    pub local_path: Option<String>,
    pub checksum: Option<String>,
    pub security_score: Option<i32>,
    pub security_issues: Option<Vec<String>>,
}

impl Skill {
    pub fn new(name: String, repository_url: String, file_path: String) -> (r: Skill)
        ensures
            r.id@ == repository_url@ + "::"@ + file_path@,
            r.name@ == name@,
            r.repository_url@ == repository_url@,
            r.file_path@ == file_path@,
            !r.installed,
            r.description is None && r.version is None && r.author is None,
            r.installed_at is None && r.local_path is None && r.checksum is None,
            r.security_score is None && r.security_issues is None,
    {
        let id = concat3(repository_url.as_str(), "::", file_path.as_str());
        Skill {
            id,
            name,
            description: None,
            repository_url,
            file_path,
            version: None,
            author: None,
            installed: false,
            installed_at: None,
            local_path: None,
            checksum: None,
            security_score: None,
            security_issues: None,
        }
    }
}

#[derive(Debug, Clone, Copy, PartialEq, Eq, Structural)]
pub enum SkillStatus {
    NotInstalled,
    Installing,
    Installed,
    Failed,
    UpdateAvailable,
}

pub struct SkillInstallation {
    pub skill_id: String,
    pub installed_at: i64,
    pub version: String,
    pub local_path: String,
    pub checksum: String,
}

/// Text in the two languages of the interface.
pub struct LocalizedText {
    pub en: String,
    pub zh: String,
}

pub struct FeaturedMarketplacesConfig {
    pub version: String,
    pub last_updated: String,
    pub categories: Vec<FeaturedMarketplaceCategory>,
}

pub struct FeaturedMarketplaceCategory {
    pub id: String,
    pub name: LocalizedText,
    pub description: LocalizedText,
    pub marketplaces: Vec<FeaturedMarketplace>,
}

pub struct FeaturedMarketplaceOwner {
    pub name: Option<String>,
    pub email: Option<String>,
}

pub struct FeaturedMarketplace {
    pub marketplace_name: String,
    pub marketplace_repo: String,
    pub repository_url: Option<String>,
    pub marketplace_add_command: Option<String>,
    pub description: LocalizedText,
    pub owner: Option<FeaturedMarketplaceOwner>,
    pub tags: Vec<String>,
    pub featured: bool,
    pub plugins: Vec<FeaturedMarketplacePlugin>,
}

pub struct FeaturedMarketplacePlugin {
    pub name: String,
    pub install_command: Option<String>,
    pub description: LocalizedText,
    pub version: Option<String>,
    pub author: Option<FeaturedMarketplaceOwner>,
    pub source: Option<String>,
    pub tags: Vec<String>,
    pub featured: bool,
}

/// The text for `locale`: Chinese for `zh…`, English otherwise.
pub fn localized_text(text: &LocalizedText, locale: &str) -> (r: String)
    ensures
        r@ == if crate::text::starts_with(locale@, "zh"@) {
            text.zh@
        } else {
            text.en@
        },
{
    let lv = chars_of(locale);
    if crate::text::starts_with_str(&lv, "zh") {
        text.zh.clone()
    } else {
        text.en.clone()
    }
}

/// `name <email>`, or whichever of the two is given.
pub open spec fn person_display(name: Option<Seq<char>>, email: Option<Seq<char>>) -> Option<
    Seq<char>,
> {
    match (name, email) {
        (Some(n), Some(e)) => Some(n + " <"@ + e + ">"@),
        (Some(n), None) => Some(n),
        (None, Some(e)) => Some(e),
        (None, None) => None,
    }
}

fn person_display_exec(name: &Option<String>, email: &Option<String>) -> (r: Option<String>)
    ensures
        crate::text::opt_chars(r) == person_display(
            crate::text::opt_chars(*name),
            crate::text::opt_chars(*email),
        ),
{
    match (name, email) {
        (Some(n), Some(e)) => {
            let a = concat3(n.as_str(), " <", e.as_str());
            Some(concat(a.as_str(), ">"))
        },
        (Some(n), None) => Some(n.clone()),
        (None, Some(e)) => Some(e.clone()),
        (None, None) => None,
    }
}

pub fn author_to_display(author: &FeaturedMarketplaceOwner) -> (r: Option<String>)
    ensures
        crate::text::opt_chars(r) == person_display(
            crate::text::opt_chars(author.name),
            crate::text::opt_chars(author.email),
        ),
{
    person_display_exec(&author.name, &author.email)
}

/// The author field of a manifest: a plain string or a name and email.
pub enum AuthorField {
    Simple(String),
    Detailed { name: Option<String>, email: Option<String> },
}

impl AuthorField {
    pub fn to_display(&self) -> (r: Option<String>)
        ensures
            crate::text::opt_chars(r) == match *self {
                AuthorField::Simple(v) => Some(v@),
                AuthorField::Detailed { name, email } => person_display(
                    crate::text::opt_chars(name),
                    crate::text::opt_chars(email),
                ),
            },
    {
        match self {
            AuthorField::Simple(value) => Some(value.clone()),
            AuthorField::Detailed { name, email } => person_display_exec(name, email),
        }
    }
}

pub struct PluginInstallStatus {
    pub plugin_id: String,
    pub plugin_name: String,
    pub status: String,
    pub output: String,
}

pub struct PluginInstallResult {
    pub marketplace_name: String,
    pub marketplace_repo: String,
    pub marketplace_status: String,
    pub raw_log: String,
    pub plugin_statuses: Vec<PluginInstallStatus>,
}

pub struct PluginUninstallResult {
    pub plugin_id: String,
    pub plugin_name: String,
    pub success: bool,
    pub raw_log: String,
}

pub struct MarketplaceRemoveResult {
    pub marketplace_name: String,
    pub marketplace_repo: String,
    pub success: bool,
    pub removed_plugins_count: usize,
    pub raw_log: String,
}

/// A marketplace as the CLI lists it.
pub struct ClaudeMarketplace {
    pub name: String,
    pub source: Option<String>,
    pub repo: Option<String>,
    pub repository_url: Option<String>,
    pub install_location: Option<String>,
}

pub struct PluginUpdateResult {
    pub plugin_id: String,
    pub plugin_name: String,
    pub status: String,
    pub raw_log: String,
}

pub struct MarketplaceUpdateResult {
    pub marketplace_name: String,
    pub success: bool,
    pub raw_log: String,
}

pub struct SkillPluginUpgradeCandidate {
    pub skill_id: String,
    pub skill_name: String,
    pub plugin_id: String,
    pub plugin_name: String,
    pub marketplace_name: String,
    pub marketplace_repo: Option<String>,
    pub marketplace_repository_url: Option<String>,
    pub latest_version: Option<String>,
    pub reason: String,
}

/// An installed plugin as `plugin list --json` reports it.
pub struct ClaudeInstalledPluginEntry {
    pub id: String,
    pub version: Option<String>,
    pub scope: Option<String>,
    pub enabled: Option<bool>,
    pub install_path: Option<String>,
    pub installed_at: Option<i64>,
    pub last_updated: Option<i64>,
}

/// An installable plugin as `plugin list --json --available` reports it.
pub struct ClaudeAvailablePluginEntry {
    pub plugin_id: String,
    pub name: Option<String>,
    pub marketplace_name: Option<String>,
    pub version: Option<String>,
}

} // verus!
