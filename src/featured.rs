//! Featured marketplaces: the records built from the curated configuration,
//! enriched from it when the marketplace is already installed, and merged
//! with what the store already knew.

use vstd::prelude::*;
use crate::manifest::{clone_opt_strings, is_unsupported, same_issues};
use crate::models::{
    author_to_display, localized_text, person_display, FeaturedMarketplace,
    FeaturedMarketplaceOwner, FeaturedMarketplacePlugin, LocalizedText, Plugin,
};
use crate::outcome::{lower_of, lowercase};
use crate::reconcile::clone_opt_exact;
use crate::text::{concat, opt_chars, starts_with};

verus! {

/// The repository URL of a featured marketplace: the configured one, else
/// its GitHub repository.
pub open spec fn featured_url(m: FeaturedMarketplace) -> Seq<char> {
    match m.repository_url {
        Some(u) => u@,
        None => "https://github.com/"@ + m.marketplace_repo@,
    }
}

pub fn featured_repo_url(m: &FeaturedMarketplace) -> (r: String)
    ensures
        r@ == featured_url(*m),
{
    match &m.repository_url {
        Some(u) => u.clone(),
        None => concat("https://github.com/", m.marketplace_repo.as_str()),
    }
}

pub open spec fn owner_view(o: Option<FeaturedMarketplaceOwner>) -> Option<Seq<char>> {
    match o {
        Some(w) => person_display(opt_chars(w.name), opt_chars(w.email)),
        None => None,
    }
}

fn owner_display(o: &Option<FeaturedMarketplaceOwner>) -> (r: Option<String>)
    ensures
        opt_chars(r) == owner_view(*o),
{
    match o {
        Some(w) => author_to_display(w),
        None => None,
    }
}

pub open spec fn localized(t: LocalizedText, locale: Seq<char>) -> Seq<char> {
    if starts_with(locale, "zh"@) {
        t.zh@
    } else {
        t.en@
    }
}

/// The record of a configured plugin of a marketplace that is not installed.
pub fn featured_plugin(entry: &FeaturedMarketplacePlugin, m: &FeaturedMarketplace, locale: &str) -> (r:
    Plugin)
    ensures
        r.name@ == entry.name@,
        r.repository_url@ == featured_url(*m),
        r.marketplace_name@ == m.marketplace_name@,
        r.source@ == match entry.source {
            Some(s) => s@,
            None => "."@,
        },
        r.discovery_source matches Some(d) && d@ == "featured_marketplace"@,
        r.description matches Some(d) && d@ == localized(entry.description, locale@),
        opt_chars(r.version) == opt_chars(entry.version),
        opt_chars(r.author) == match owner_view(entry.author) {
            Some(a) => Some(a),
            None => owner_view(m.owner),
        },
        r.marketplace_add_command == m.marketplace_add_command,
        r.plugin_install_command == entry.install_command,
        !r.installed,
{
    let source = match &entry.source {
        Some(s) => s.clone(),
        None => ".".to_string(),
    };
    let mut p = Plugin::new(entry.name.clone(), featured_repo_url(m), m.marketplace_name.clone(), source);
    p.discovery_source = Some("featured_marketplace".to_string());
    p.description = Some(localized_text(&entry.description, locale));
    p.version = clone_opt_exact(&entry.version);
    p.author = match owner_display(&entry.author) {
        Some(a) => Some(a),
        None => owner_display(&m.owner),
    };
    p.marketplace_add_command = clone_opt_exact(&m.marketplace_add_command);
    p.plugin_install_command = clone_opt_exact(&entry.install_command);
    p
}

/// Index of the configured plugin whose lower-cased name is `key`.
pub open spec fn config_index(ps: Seq<FeaturedMarketplacePlugin>, key: Seq<char>, k: int) -> Option<int>
    decreases k,
{
    if k <= 0 {
        None
    } else if lower_of(ps[k - 1].name@) == key {
        Some(k - 1)
    } else {
        config_index(ps, key, k - 1)
    }
}

/// The configured entry named like `name`, ignoring case (the last such).
pub fn find_config_entry(m: &FeaturedMarketplace, name: &String) -> (r: Option<usize>)
    ensures
        match r {
            Some(i) => config_index(m.plugins@, lower_of(name@), m.plugins@.len() as int) == Some(
                i as int,
            ) && i < m.plugins@.len(),
            None => config_index(m.plugins@, lower_of(name@), m.plugins@.len() as int) is None,
        },
{
    let key = lowercase(name.as_str());
    let mut k: usize = m.plugins.len();
    while k > 0
        invariant
            0 <= k <= m.plugins@.len(),
            key@ == lower_of(name@),
            config_index(m.plugins@, key@, m.plugins@.len() as int) == config_index(
                m.plugins@,
                key@,
                k as int,
            ),
        decreases k,
    {
        let lk = lowercase(m.plugins[k - 1].name.as_str());
        let mut same = lk.len() == key.len();
        let mut i: usize = 0;
        while same && i < lk.len()
            invariant
                lk@.len() == key@.len() || !same,
                0 <= i <= lk@.len(),
                same ==> forall|x: int| 0 <= x < i ==> lk@[x] == key@[x],
                !same ==> lk@ != key@,
            decreases lk.len() - i,
        {
            if lk[i] != key[i] {
                same = false;
            }
            i = i + 1;
        }
        if same {
            assert(lk@ =~= key@);
            return Some(k - 1);
        }
        k = k - 1;
    }
    None
}

/// A record of an installed featured marketplace, resolved from its manifest,
/// completed from the configuration: the configured entry fills what the
/// manifest left empty, and the marketplace owner stands in for a missing
/// author.
pub fn enrich_installed_featured(
    p: Plugin,
    entry: Option<&FeaturedMarketplacePlugin>,
    m: &FeaturedMarketplace,
    locale: &str,
) -> (r: Plugin)
    ensures
        r.id == p.id && r.name == p.name && r.installed == p.installed,
        r.discovery_source matches Some(d) && d@ == "featured_marketplace"@,
        r.marketplace_add_command == m.marketplace_add_command,
        match entry {
            Some(e) => {
                &&& opt_chars(r.description) == match p.description {
                    Some(d) => Some(d@),
                    None => Some(localized(e.description, locale@)),
                }
                &&& r.version == if p.version is Some {
                    p.version
                } else {
                    e.version
                }
                &&& opt_chars(r.author) == if p.author is Some {
                    opt_chars(p.author)
                } else {
                    match owner_view(e.author) {
                        Some(a) => Some(a),
                        None => owner_view(m.owner),
                    }
                }
                &&& r.plugin_install_command == if p.plugin_install_command is Some {
                    p.plugin_install_command
                } else {
                    e.install_command
                }
            },
            None => {
                &&& r.description == p.description && r.version == p.version
                &&& opt_chars(r.author) == if p.author is Some {
                    opt_chars(p.author)
                } else {
                    owner_view(m.owner)
                }
                &&& r.plugin_install_command == p.plugin_install_command
            },
        },
{
    let mut q = p;
    q.discovery_source = Some("featured_marketplace".to_string());
    q.marketplace_add_command = clone_opt_exact(&m.marketplace_add_command);
    match entry {
        Some(e) => {
            if q.description.is_none() {
                q.description = Some(localized_text(&e.description, locale));
            }
            if q.version.is_none() {
                q.version = clone_opt_exact(&e.version);
            }
            if q.author.is_none() {
                q.author = match owner_display(&e.author) {
                    Some(a) => Some(a),
                    None => owner_display(&m.owner),
                };
            }
            if q.plugin_install_command.is_none() {
                q.plugin_install_command = clone_opt_exact(&e.install_command);
            }
        },
        None => {
            if q.author.is_none() {
                q.author = owner_display(&m.owner);
            }
        },
    }
    q
}

/// A featured record with what the store already knew of it; its own
/// commands win when set, and a stale `unsupported` status is dropped.
pub fn featured_carry_over(fresh: Plugin, existing: &Plugin) -> (r: Plugin)
    ensures
        r.id == fresh.id && r.name == fresh.name && r.discovery_source == fresh.discovery_source,
        r.marketplace_add_command == if fresh.marketplace_add_command is Some {
            fresh.marketplace_add_command
        } else {
            existing.marketplace_add_command
        },
        r.plugin_install_command == if fresh.plugin_install_command is Some {
            fresh.plugin_install_command
        } else {
            existing.plugin_install_command
        },
        r.installed == existing.installed && r.installed_at == existing.installed_at,
        r.installed_version == existing.installed_version,
        r.claude_id == if existing.claude_id is Some {
            existing.claude_id
        } else {
            fresh.claude_id
        },
        r.claude_scope == existing.claude_scope && r.claude_enabled == existing.claude_enabled,
        r.claude_install_path == existing.claude_install_path,
        r.claude_last_updated == existing.claude_last_updated,
        r.security_score == existing.security_score && r.security_level == existing.security_level,
        r.scanned_at == existing.scanned_at && r.staging_path == existing.staging_path,
        r.install_log == existing.install_log,
        r.install_status == if is_unsupported(existing.install_status) {
            None
        } else {
            existing.install_status
        },
        same_issues(r.security_issues, existing.security_issues),
{
    let mut p = fresh;
    if p.marketplace_add_command.is_none() {
        p.marketplace_add_command = clone_opt_exact(&existing.marketplace_add_command);
    }
    if p.plugin_install_command.is_none() {
        p.plugin_install_command = clone_opt_exact(&existing.plugin_install_command);
    }
    p.installed = existing.installed;
    p.installed_at = existing.installed_at;
    p.installed_version = clone_opt_exact(&existing.installed_version);
    if existing.claude_id.is_some() {
        p.claude_id = clone_opt_exact(&existing.claude_id);
    }
    p.claude_scope = clone_opt_exact(&existing.claude_scope);
    p.claude_enabled = existing.claude_enabled;
    p.claude_install_path = clone_opt_exact(&existing.claude_install_path);
    p.claude_last_updated = existing.claude_last_updated;
    p.security_score = existing.security_score;
    p.security_level = clone_opt_exact(&existing.security_level);
    p.scanned_at = existing.scanned_at;
    p.security_issues = clone_opt_strings(&existing.security_issues);
    p.staging_path = clone_opt_exact(&existing.staging_path);
    p.install_log = clone_opt_exact(&existing.install_log);
    let unsupported = match &existing.install_status {
        Some(s) => s.as_str().to_string() == "unsupported".to_string(),
        None => false,
    };
    p.install_status = if unsupported {
        None
    } else {
        clone_opt_exact(&existing.install_status)
    };
    p
}

/// A featured record that is no longer configured and not installed is
/// dropped from the store.
pub fn is_stale_featured(p: &Plugin, featured_ids: &Vec<String>) -> (r: bool)
    ensures
        r == ((match p.discovery_source {
            Some(d) => d@ == "featured_marketplace"@,
            None => false,
        }) && !p.installed && !crate::text::in_strings(featured_ids@, p.id@)),
{
    let featured = match &p.discovery_source {
        Some(d) => d.as_str().to_string() == "featured_marketplace".to_string(),
        None => false,
    };
    featured && !p.installed && !crate::text::contains_string(featured_ids, &p.id)
}

} // verus!
