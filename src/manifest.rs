//! Marketplace manifests and the plugin records built from them, and the
//! carrying over of locally known state onto freshly resolved records.

use vstd::prelude::*;
use crate::models::{new_plugin, person_display, AuthorField, Plugin};
use crate::reconcile::clone_opt_exact;
use crate::source_path::{normalize_source, normalized, resolve_source_path, resolved, SourcePathError};
use crate::text::opt_chars;

verus! {

/// The marketplace manifest: the marketplace's name and entries.
pub struct MarketplaceManifest {
    pub name: String,
    pub description: Option<String>,
    pub plugins: Vec<MarketplacePluginEntry>,
}

pub struct MarketplacePluginEntry {
    pub name: String,
    pub description: Option<String>,
    pub version: Option<String>,
    pub source: String,
    pub author: Option<AuthorField>,
}

/// A plugin's own `plugin.json`.
pub struct PluginManifest {
    pub name: String,
    pub description: Option<String>,
    pub version: Option<String>,
    pub author: Option<AuthorField>,
}

pub open spec fn author_view(a: Option<AuthorField>) -> Option<Seq<char>> {
    match a {
        Some(AuthorField::Simple(v)) => Some(v@),
        Some(AuthorField::Detailed { name, email }) => person_display(opt_chars(name), opt_chars(email)),
        None => None,
    }
}

pub open spec fn first_some(a: Option<Seq<char>>, b: Option<Seq<char>>) -> Option<Seq<char>> {
    match a {
        Some(x) => Some(x),
        None => b,
    }
}

/// `r` is the record of manifest entry `e` of marketplace `mp` from
/// repository `url`; `own` is the entry's own manifest, when read.
pub open spec fn entry_record(
    r: Plugin,
    e: MarketplacePluginEntry,
    own: Option<PluginManifest>,
    url: Seq<char>,
    mp: Seq<char>,
) -> bool {
    let name = match own {
        Some(m) => m.name@,
        None => e.name@,
    };
    let own_description = match own {
        Some(m) => opt_chars(m.description),
        None => None,
    };
    let own_version = match own {
        Some(m) => opt_chars(m.version),
        None => None,
    };
    let own_author = match own {
        Some(m) => author_view(m.author),
        None => None,
    };
    &&& new_plugin(
        Plugin { description: None, version: None, author: None, ..r },
        name,
        url,
        mp,
        normalized(e.source@),
    )
    &&& opt_chars(r.description) == first_some(own_description, opt_chars(e.description))
    &&& opt_chars(r.version) == first_some(own_version, opt_chars(e.version))
    &&& opt_chars(r.author) == first_some(own_author, author_view(e.author))
}

fn author_display(a: &Option<AuthorField>) -> (r: Option<String>)
    ensures
        opt_chars(r) == author_view(*a),
{
    match a {
        Some(f) => f.to_display(),
        None => None,
    }
}

fn first_of(a: Option<String>, b: Option<String>) -> (r: Option<String>)
    ensures
        opt_chars(r) == first_some(opt_chars(a), opt_chars(b)),
{
    match a {
        Some(x) => Some(x),
        None => b,
    }
}

/// The record for one manifest entry: the plugin's own manifest, when read,
/// wins over the marketplace entry for name, description, version, author.
pub fn plugin_from_entry(
    entry: &MarketplacePluginEntry,
    own: &Option<PluginManifest>,
    repo_url: &String,
    marketplace_name: &String,
) -> (r: Plugin)
    ensures
        entry_record(r, *entry, *own, repo_url@, marketplace_name@),
{
    let name = match own {
        Some(m) => m.name.clone(),
        None => entry.name.clone(),
    };
    let source = normalize_source(entry.source.as_str());
    let mut p = Plugin::new(name, repo_url.clone(), marketplace_name.clone(), source);
    let (d, v, a) = match own {
        Some(m) => (clone_opt_exact(&m.description), clone_opt_exact(&m.version), author_display(&m.author)),
        None => (None, None, None),
    };
    p.description = first_of(d, clone_opt_exact(&entry.description));
    p.version = first_of(v, clone_opt_exact(&entry.version));
    p.author = first_of(a, author_display(&entry.author));
    p
}

/// The records of a marketplace checked out at `repo_root`, each with its
/// directory; `own[i]` is entry `i`'s own manifest when it could be read. A
/// source that leaves the repository fails the whole marketplace.
pub fn resolve_marketplace_plugins(
    manifest: &MarketplaceManifest,
    own: &Vec<Option<PluginManifest>>,
    repo_root: &str,
    repo_url: &String,
) -> (r: Result<Vec<(Plugin, String)>, SourcePathError>)
    requires
        own@.len() == manifest.plugins@.len(),
    ensures
        match r {
            Ok(v) => v@.len() == manifest.plugins@.len() && forall|i: int|
                0 <= i < v@.len() ==> resolved(repo_root@, manifest.plugins@[i].source@) == Ok::<
                    Seq<char>,
                    SourcePathError,
                >((#[trigger] v@[i]).1@) && v@[i].0.marketplace_name@ == manifest.name@
                    && v@[i].0.source@ == normalized(manifest.plugins@[i].source@),
            Err(e) => exists|i: int|
                0 <= i < manifest.plugins@.len() && #[trigger] resolved(
                    repo_root@,
                    manifest.plugins@[i].source@,
                ) == Err::<Seq<char>, SourcePathError>(e),
        },
{
    let mut out: Vec<(Plugin, String)> = Vec::new();
    let mut i: usize = 0;
    while i < manifest.plugins.len()
        invariant
            own@.len() == manifest.plugins@.len(),
            0 <= i <= manifest.plugins@.len(),
            out@.len() == i,
            forall|k: int|
                0 <= k < i ==> resolved(repo_root@, manifest.plugins@[k].source@) == Ok::<
                    Seq<char>,
                    SourcePathError,
                >((#[trigger] out@[k]).1@) && out@[k].0.marketplace_name@ == manifest.name@
                    && out@[k].0.source@ == normalized(manifest.plugins@[k].source@),
        decreases manifest.plugins.len() - i,
    {
        let entry = &manifest.plugins[i];
        match resolve_source_path(repo_root, entry.source.as_str()) {
            Err(e) => {
                return Err(e);
            },
            Ok(path) => {
                let p = plugin_from_entry(entry, &own[i], repo_url, &manifest.name);
                out.push((p, path));
            },
        }
        i = i + 1;
    }
    Ok(out)
}

fn clone_strings(v: &Vec<String>) -> (r: Vec<String>)
    ensures
        r@ == v@,
{
    let mut out: Vec<String> = Vec::new();
    let mut i: usize = 0;
    while i < v.len()
        invariant
            0 <= i <= v@.len(),
            out@ == v@.subrange(0, i as int),
        decreases v.len() - i,
    {
        out.push(v[i].clone());
        assert(out@ =~= v@.subrange(0, i + 1));
        i = i + 1;
    }
    assert(v@.subrange(0, i as int) == v@);
    out
}

/// Both absent, or both present with the same strings.
pub open spec fn same_issues(a: Option<Vec<String>>, b: Option<Vec<String>>) -> bool {
    match (a, b) {
        (Some(x), Some(y)) => x@ == y@,
        (None, None) => true,
        _ => false,
    }
}

pub fn clone_opt_strings(o: &Option<Vec<String>>) -> (r: Option<Vec<String>>)
    ensures
        same_issues(r, *o),
{
    match o {
        Some(v) => Some(clone_strings(v)),
        None => None,
    }
}

/// Whether a stored status is the stale `unsupported`.
pub open spec fn is_unsupported(s: Option<String>) -> bool {
    match s {
        Some(v) => v@ == "unsupported"@,
        None => false,
    }
}

/// `r` is `fresh` with what the store knew of it as `existing`.
pub open spec fn carried(r: Plugin, fresh: Plugin, existing: Plugin) -> bool {
    &&& r.id == fresh.id && r.name == fresh.name && r.source == fresh.source
    &&& r.marketplace_name == fresh.marketplace_name && r.repository_url == fresh.repository_url
    &&& r.repository_owner == fresh.repository_owner
    &&& r.description == fresh.description && r.version == fresh.version
    &&& r.author == fresh.author
    &&& r.installed == existing.installed
    &&& r.installed_at == existing.installed_at
    &&& r.installed_version == existing.installed_version
    &&& r.claude_id == (if existing.claude_id is Some {
        existing.claude_id
    } else {
        fresh.claude_id
    })
    &&& r.discovery_source == (if existing.discovery_source is Some {
        existing.discovery_source
    } else {
        fresh.discovery_source
    })
    &&& r.marketplace_add_command == existing.marketplace_add_command
    &&& r.plugin_install_command == existing.plugin_install_command
    &&& r.claude_scope == existing.claude_scope && r.claude_enabled == existing.claude_enabled
    &&& r.claude_install_path == existing.claude_install_path
    &&& r.claude_last_updated == existing.claude_last_updated
    &&& r.security_score == existing.security_score && r.security_level == existing.security_level
    &&& r.scanned_at == existing.scanned_at && r.staging_path == existing.staging_path
    &&& r.install_log == existing.install_log
    &&& r.install_status == (if is_unsupported(existing.install_status) {
        fresh.install_status
    } else if existing.install_status is Some {
        existing.install_status
    } else {
        fresh.install_status
    })
    &&& same_issues(r.security_issues, existing.security_issues)
}

/// `fresh`, a record just resolved from a manifest, with what the store
/// already knew of the same plugin: install state, CLI metadata, the last
/// scan, staging and log. A stale `unsupported` status is dropped.
pub fn carry_over_state(fresh: Plugin, existing: &Plugin) -> (r: Plugin)
    ensures
        carried(r, fresh, *existing),
{
    let mut p = fresh;
    p.marketplace_add_command = clone_opt_exact(&existing.marketplace_add_command);
    p.plugin_install_command = clone_opt_exact(&existing.plugin_install_command);
    p.installed = existing.installed;
    p.installed_at = existing.installed_at;
    p.installed_version = clone_opt_exact(&existing.installed_version);
    if existing.claude_id.is_some() {
        p.claude_id = clone_opt_exact(&existing.claude_id);
    }
    if existing.discovery_source.is_some() {
        p.discovery_source = clone_opt_exact(&existing.discovery_source);
    }
    p.claude_scope = clone_opt_exact(&existing.claude_scope);
    p.claude_enabled = existing.claude_enabled;
    p.claude_install_path = clone_opt_exact(&existing.claude_install_path);
    p.claude_last_updated = existing.claude_last_updated;
    p.security_score = existing.security_score;
    p.security_level = clone_opt_exact(&existing.security_level);
    p.security_issues = clone_opt_strings(&existing.security_issues);
    p.scanned_at = existing.scanned_at;
    p.staging_path = clone_opt_exact(&existing.staging_path);
    p.install_log = clone_opt_exact(&existing.install_log);
    let unsupported = match &existing.install_status {
        Some(s) => s.as_str().to_string() == "unsupported".to_string(),
        None => false,
    };
    if !unsupported && existing.install_status.is_some() {
        p.install_status = clone_opt_exact(&existing.install_status);
    }
    p
}

/// The last of the first `k` stored records with id `id`.
pub open spec fn last_with_id(existing: Seq<Plugin>, id: Seq<char>, k: int) -> Option<int>
    decreases k,
{
    if k <= 0 {
        None
    } else if existing[k - 1].id@ == id {
        Some(k - 1)
    } else {
        last_with_id(existing, id, k - 1)
    }
}

/// `p` is the record of entry `e`, carried over from the last stored record
/// with its id when there is one.
pub open spec fn listed_record(
    p: Plugin,
    e: MarketplacePluginEntry,
    own: Option<PluginManifest>,
    url: Seq<char>,
    mp: Seq<char>,
    existing: Seq<Plugin>,
) -> bool {
    exists|f: Plugin|
        #[trigger] entry_record(f, e, own, url, mp) && match last_with_id(
            existing,
            f.id@,
            existing.len() as int,
        ) {
            Some(j) => carried(p, f, existing[j]),
            None => p == f,
        }
}

fn last_index_with_id(existing: &Vec<Plugin>, id: &String) -> (r: Option<usize>)
    ensures
        match r {
            Some(j) => last_with_id(existing@, id@, existing@.len() as int) == Some(j as int) && j
                < existing@.len(),
            None => last_with_id(existing@, id@, existing@.len() as int) is None,
        },
{
    let mut k: usize = existing.len();
    while k > 0
        invariant
            0 <= k <= existing@.len(),
            last_with_id(existing@, id@, existing@.len() as int) == last_with_id(
                existing@,
                id@,
                k as int,
            ),
        decreases k,
    {
        if existing[k - 1].id == *id {
            return Some(k - 1);
        }
        k = k - 1;
    }
    None
}

/// The records of a cached marketplace listing: entry `i` gives `Some` record
/// when its source stays inside the repository, `None` when the guard
/// refuses it (such entries are skipped, not fatal). Records already in the
/// store keep their state.
pub fn plugins_from_manifest(
    manifest: &MarketplaceManifest,
    own: &Vec<Option<PluginManifest>>,
    repo_root: &str,
    repo_url: &String,
    existing: &Vec<Plugin>,
) -> (r: Vec<Option<Plugin>>)
    requires
        own@.len() == manifest.plugins@.len(),
    ensures
        r@.len() == manifest.plugins@.len(),
        forall|i: int|
            0 <= i < r@.len() ==> ((#[trigger] r@[i]) is None <==> resolved(
                repo_root@,
                manifest.plugins@[i].source@,
            ) is Err),
        forall|i: int|
            0 <= i < r@.len() && r@[i] is Some ==> listed_record(
                (#[trigger] r@[i])->Some_0,
                manifest.plugins@[i],
                own@[i],
                repo_url@,
                manifest.name@,
                existing@,
            ),
{
    let mut out: Vec<Option<Plugin>> = Vec::new();
    let mut i: usize = 0;
    while i < manifest.plugins.len()
        invariant
            own@.len() == manifest.plugins@.len(),
            0 <= i <= manifest.plugins@.len(),
            out@.len() == i,
            forall|k: int|
                0 <= k < i ==> ((#[trigger] out@[k]) is None <==> resolved(
                    repo_root@,
                    manifest.plugins@[k].source@,
                ) is Err),
            forall|k: int|
                0 <= k < i && out@[k] is Some ==> listed_record(
                    (#[trigger] out@[k])->Some_0,
                    manifest.plugins@[k],
                    own@[k],
                    repo_url@,
                    manifest.name@,
                    existing@,
                ),
        decreases manifest.plugins.len() - i,
    {
        let entry = &manifest.plugins[i];
        match resolve_source_path(repo_root, entry.source.as_str()) {
            Err(_) => {
                out.push(None);
            },
            Ok(_) => {
                let fresh = plugin_from_entry(entry, &own[i], repo_url, &manifest.name);
                let found = last_index_with_id(existing, &fresh.id);
                let ghost f = fresh;
                let p = match found {
                    Some(j) => carry_over_state(fresh, &existing[j]),
                    None => fresh,
                };
                assert(entry_record(f, manifest.plugins@[i as int], own@[i as int], repo_url@, manifest.name@));
                assert(listed_record(p, manifest.plugins@[i as int], own@[i as int], repo_url@, manifest.name@, existing@));
                out.push(Some(p));
            },
        }
        i = i + 1;
    }
    out
}

/// A freshly resolved record about to be scanned, with the install facts the
/// store already knew of it.
pub fn prepare_carry_over(fresh: Plugin, existing: &Plugin) -> (r: Plugin)
    ensures
        r.id == fresh.id && r.name == fresh.name && r.source == fresh.source,
        r.description == fresh.description && r.version == fresh.version,
        r.installed == existing.installed && r.installed_at == existing.installed_at,
        r.installed_version == existing.installed_version,
        r.claude_id == if existing.claude_id is Some {
            existing.claude_id
        } else {
            fresh.claude_id
        },
        r.discovery_source == if existing.discovery_source is Some {
            existing.discovery_source
        } else {
            fresh.discovery_source
        },
        r.claude_scope == existing.claude_scope && r.claude_enabled == existing.claude_enabled,
        r.claude_install_path == existing.claude_install_path,
        r.claude_last_updated == existing.claude_last_updated,
        r.install_log == existing.install_log && r.install_status == existing.install_status,
        r.security_score == fresh.security_score && r.staging_path == fresh.staging_path,
{
    let mut p = fresh;
    p.installed = existing.installed;
    p.installed_at = existing.installed_at;
    p.installed_version = clone_opt_exact(&existing.installed_version);
    if existing.claude_id.is_some() {
        p.claude_id = clone_opt_exact(&existing.claude_id);
    }
    if existing.discovery_source.is_some() {
        p.discovery_source = clone_opt_exact(&existing.discovery_source);
    }
    p.claude_scope = clone_opt_exact(&existing.claude_scope);
    p.claude_enabled = existing.claude_enabled;
    p.claude_install_path = clone_opt_exact(&existing.claude_install_path);
    p.claude_last_updated = existing.claude_last_updated;
    p.install_log = clone_opt_exact(&existing.install_log);
    p.install_status = clone_opt_exact(&existing.install_status);
    p
}

} // verus!
