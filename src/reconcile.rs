//! Reconciliation of the local plugin records with the CLI's own listing,
//! which always wins: plugins the CLI reports are recorded as installed, and
//! records the CLI no longer reports are flipped back to not installed.
//! Records are only ever updated or added, never removed.

use vstd::prelude::*;
use crate::cli_args::{parse_claude_plugin_id, plugin_id_parts};
use crate::models::{repository_owner, ClaudeInstalledPluginEntry, Plugin};
use crate::text::opt_chars;

verus! {

/// `o` exactly.
pub fn clone_opt_exact(o: &Option<String>) -> (r: Option<String>)
    ensures
        r == *o,
{
    match o {
        Some(s) => Some(s.clone()),
        None => None,
    }
}

/// Record `p` carries CLI id `id`.
pub open spec fn has_claude_id(p: Plugin, id: Seq<char>) -> bool {
    match p.claude_id {
        Some(c) => c@ == id,
        None => false,
    }
}

/// `p` as no longer installed: the install metadata is cleared.
pub open spec fn cleared(p: Plugin) -> Plugin {
    Plugin {
        installed: false,
        installed_at: None,
        installed_version: None,
        claude_scope: None,
        claude_enabled: None,
        claude_install_path: None,
        claude_last_updated: None,
        ..p
    }
}

/// `p` updated from the CLI's entry for it.
pub open spec fn applied(p: Plugin, e: ClaudeInstalledPluginEntry, name: String, mp: String) -> Plugin {
    Plugin {
        claude_id: Some(e.id),
        installed: true,
        installed_version: e.version,
        claude_scope: e.scope,
        claude_enabled: e.enabled,
        claude_install_path: e.install_path,
        claude_last_updated: e.last_updated,
        installed_at: if p.installed_at is None {
            e.installed_at
        } else {
            p.installed_at
        },
        marketplace_name: if p.marketplace_name@.len() == 0 {
            mp
        } else {
            p.marketplace_name
        },
        name: if p.name@.len() == 0 {
            name
        } else {
            p.name
        },
        ..p
    }
}

/// Records what the CLI reports of an installed plugin; `name` and `mp` are
/// the parts of its id.
pub fn apply_installed_entry(p: Plugin, e: &ClaudeInstalledPluginEntry, name: &String, mp: &String) -> (r:
    Plugin)
    ensures
        r == applied(p, *e, *name, *mp),
{
    let mut q = p;
    q.claude_id = Some(e.id.clone());
    q.installed = true;
    q.installed_version = clone_opt_exact(&e.version);
    q.claude_scope = clone_opt_exact(&e.scope);
    q.claude_enabled = e.enabled;
    q.claude_install_path = clone_opt_exact(&e.install_path);
    q.claude_last_updated = e.last_updated;
    if q.installed_at.is_none() {
        q.installed_at = e.installed_at;
    }
    if q.marketplace_name.as_str().is_empty() {
        q.marketplace_name = mp.clone();
    }
    if q.name.as_str().is_empty() {
        q.name = name.clone();
    }
    q
}

/// The last of the first `k` entries that reports plugin `id` (whose id
/// splits into name and marketplace).
pub open spec fn last_entry(entries: Seq<ClaudeInstalledPluginEntry>, id: Seq<char>, k: int) -> Option<int>
    decreases k,
{
    if k <= 0 {
        None
    } else if entries[k - 1].id@ == id && plugin_id_parts(id) is Some {
        Some(k - 1)
    } else {
        last_entry(entries, id, k - 1)
    }
}

/// The entry the CLI reports for `id`: its last one.
pub open spec fn reported(entries: Seq<ClaudeInstalledPluginEntry>, id: Seq<char>) -> Option<int> {
    last_entry(entries, id, entries.len() as int)
}

/// The repository URL of marketplace `mp` in the listing (its last
/// mention), `local` when it is not listed.
pub open spec fn url_for(urls: Seq<(String, String)>, mp: Seq<char>, k: int) -> Seq<char>
    decreases k,
{
    if k <= 0 {
        "local"@
    } else if urls[k - 1].0@ == mp {
        urls[k - 1].1@
    } else {
        url_for(urls, mp, k - 1)
    }
}

/// `r` is record `p` updated from the CLI's entry `e`: the CLI id and
/// install metadata from `e`, the name and marketplace from the id when the
/// record had none, the install time kept when known; nothing else changes.
pub open spec fn applied_to(r: Plugin, p: Plugin, e: ClaudeInstalledPluginEntry) -> bool {
    let parts = plugin_id_parts(e.id@)->Some_0;
    &&& r == (Plugin {
        name: r.name,
        marketplace_name: r.marketplace_name,
        claude_id: Some(e.id),
        installed: true,
        installed_version: e.version,
        claude_scope: e.scope,
        claude_enabled: e.enabled,
        claude_install_path: e.install_path,
        claude_last_updated: e.last_updated,
        installed_at: if p.installed_at is None {
            e.installed_at
        } else {
            p.installed_at
        },
        ..p
    })
    &&& r.name@ == (if p.name@.len() == 0 {
        parts.0
    } else {
        p.name@
    })
    &&& r.marketplace_name@ == (if p.marketplace_name@.len() == 0 {
        parts.1
    } else {
        p.marketplace_name@
    })
}

/// What becomes of stored record `p`: updated from the CLI's entry for its
/// id; flipped back when installed but no longer reported; else unchanged.
pub open spec fn settled(r: Plugin, p: Plugin, entries: Seq<ClaudeInstalledPluginEntry>) -> bool {
    match p.claude_id {
        Some(c) => match reported(entries, c@) {
            Some(j) => applied_to(r, p, entries[j]),
            None => r == (if p.installed && !listed_id(entries, c@) {
                cleared(p)
            } else {
                p
            }),
        },
        None => r == p,
    }
}

/// Some entry of the listing carries id `id` (whether or not it splits into
/// name and marketplace).
pub open spec fn listed_id(entries: Seq<ClaudeInstalledPluginEntry>, id: Seq<char>) -> bool {
    exists|k: int| 0 <= k < entries.len() && #[trigger] entries[k].id@ == id
}

fn listed_exec(entries: &Vec<ClaudeInstalledPluginEntry>, id: &String) -> (r: bool)
    ensures
        r == listed_id(entries@, id@),
{
    let mut k: usize = 0;
    while k < entries.len()
        invariant
            0 <= k <= entries@.len(),
            forall|x: int| 0 <= x < k ==> (#[trigger] entries@[x]).id@ != id@,
        decreases entries.len() - k,
    {
        if entries[k].id == *id {
            return true;
        }
        k = k + 1;
    }
    false
}

/// `r` is the record synthesised for a plugin the CLI reports through entry
/// `e` and that no stored record knows: discovered through the CLI, source
/// `external`, repository from the marketplace listing.
pub open spec fn discovered(r: Plugin, e: ClaudeInstalledPluginEntry, urls: Seq<(String, String)>) -> bool {
    let parts = plugin_id_parts(e.id@)->Some_0;
    let url = url_for(urls, parts.1, urls.len() as int);
    &&& r.id@ == url + "::"@ + parts.1 + "::"@ + parts.0
    &&& r.name@ == parts.0
    &&& r.marketplace_name@ == parts.1
    &&& r.repository_url@ == url
    &&& opt_chars(r.repository_owner) == Some(repository_owner(url))
    &&& r.source@ == "external"@
    &&& opt_chars(r.discovery_source) == Some("claude_cli"@)
    &&& r.claude_id == Some(e.id)
    &&& r.installed
    &&& r.installed_version == e.version && r.claude_scope == e.scope
    &&& r.claude_enabled == e.enabled && r.claude_install_path == e.install_path
    &&& r.claude_last_updated == e.last_updated && r.installed_at == e.installed_at
    &&& r.description is None && r.version is None && r.author is None
    &&& r.marketplace_add_command is None && r.plugin_install_command is None
    &&& r.security_score is None && r.security_issues is None && r.security_level is None
    &&& r.scanned_at is None && r.staging_path is None && r.install_log is None
    &&& r.install_status is None
}

/// Some stored record carries CLI id `id`.
pub open spec fn known(plugins: Seq<Plugin>, id: Seq<char>) -> bool {
    exists|i: int| 0 <= i < plugins.len() && has_claude_id(#[trigger] plugins[i], id)
}

/// Entry `k` is the first to report its id.
pub open spec fn first_report(entries: Seq<ClaudeInstalledPluginEntry>, k: int) -> bool {
    forall|j: int| 0 <= j < k ==> (#[trigger] entries[j]).id@ != entries[k].id@
}

/// The entries among the first `k` that bring a plugin no stored record
/// knows, each plugin once (at its first report).
pub open spec fn newcomers(entries: Seq<ClaudeInstalledPluginEntry>, plugins: Seq<Plugin>, k: int) -> Seq<int>
    decreases k,
{
    if k <= 0 {
        Seq::empty()
    } else {
        let id = entries[k - 1].id@;
        newcomers(entries, plugins, k - 1) + if plugin_id_parts(id) is Some && !known(plugins, id)
            && first_report(entries, k - 1) {
            seq![k - 1]
        } else {
            Seq::empty()
        }
    }
}

/// The outcome of syncing stored `plugins` with the CLI's listing `entries`
/// (and marketplace URLs `urls`): each stored record settled in place, then
/// one discovered record per newly reported plugin, from its last entry.
pub open spec fn sync_result(
    plugins: Seq<Plugin>,
    entries: Seq<ClaudeInstalledPluginEntry>,
    urls: Seq<(String, String)>,
    r: Seq<Plugin>,
) -> bool {
    let fresh = newcomers(entries, plugins, entries.len() as int);
    &&& r.len() == plugins.len() + fresh.len()
    &&& forall|i: int| 0 <= i < plugins.len() ==> settled(#[trigger] r[i], plugins[i], entries)
    &&& forall|t: int|
        0 <= t < fresh.len() ==> discovered(
            #[trigger] r[plugins.len() + t],
            entries[reported(entries, entries[fresh[t]].id@)->Some_0],
            urls,
        )
}

fn last_entry_exec(entries: &Vec<ClaudeInstalledPluginEntry>, id: &String) -> (r: Option<usize>)
    ensures
        match r {
            Some(j) => reported(entries@, id@) == Some(j as int) && j < entries@.len(),
            None => reported(entries@, id@) is None,
        },
{
    let splits = parse_claude_plugin_id(id.as_str()).is_some();
    let mut k: usize = entries.len();
    while k > 0
        invariant
            0 <= k <= entries@.len(),
            splits == (plugin_id_parts(id@) is Some),
            reported(entries@, id@) == last_entry(entries@, id@, k as int),
        decreases k,
    {
        if entries[k - 1].id == *id && splits {
            return Some(k - 1);
        }
        k = k - 1;
    }
    None
}

/// The repository URL recorded for marketplace `mp`, `local` when none is.
fn repository_url_for(urls: &Vec<(String, String)>, mp: &String) -> (r: String)
    ensures
        r@ == url_for(urls@, mp@, urls@.len() as int),
{
    let mut k: usize = urls.len();
    while k > 0
        invariant
            0 <= k <= urls@.len(),
            url_for(urls@, mp@, urls@.len() as int) == url_for(urls@, mp@, k as int),
        decreases k,
    {
        if urls[k - 1].0 == *mp {
            return urls[k - 1].1.clone();
        }
        k = k - 1;
    }
    "local".to_string()
}

/// Stored record `p` after the sync.
fn settle_record(p: Plugin, entries: &Vec<ClaudeInstalledPluginEntry>) -> (r: Plugin)
    ensures
        settled(r, p, entries@),
        opt_chars(r.claude_id) == opt_chars(p.claude_id),
{
    let found = match &p.claude_id {
        Some(c) => last_entry_exec(entries, c),
        None => None,
    };
    match found {
        Some(j) => {
            let e = &entries[j];
            proof {
                let c = p.claude_id->Some_0;
                lemma_last_entry_is(entries@, c@, entries@.len() as int);
                assert(e.id@ == c@);
            }
            match parse_claude_plugin_id(e.id.as_str()) {
                Some((name, mp)) => apply_installed_entry(p, e, &name, &mp),
                None => p,
            }
        },
        None => {
            let listed = match &p.claude_id {
                Some(c) => listed_exec(entries, c),
                None => false,
            };
            if p.claude_id.is_some() && p.installed && !listed {
                let mut q = p;
                q.installed = false;
                q.installed_at = None;
                q.installed_version = None;
                q.claude_scope = None;
                q.claude_enabled = None;
                q.claude_install_path = None;
                q.claude_last_updated = None;
                q
            } else {
                p
            }
        },
    }
}

/// Whether one of the first `n` records carries CLI id `id`.
fn known_exec(list: &Vec<Plugin>, n: usize, id: &String) -> (r: bool)
    requires
        n <= list@.len(),
    ensures
        r == exists|i: int| 0 <= i < n && has_claude_id(#[trigger] list@[i], id@),
{
    let mut i: usize = 0;
    while i < n
        invariant
            n <= list@.len(),
            0 <= i <= n,
            forall|x: int| 0 <= x < i ==> !has_claude_id(#[trigger] list@[x], id@),
        decreases n - i,
    {
        match &list[i].claude_id {
            Some(c) => {
                if *c == *id {
                    return true;
                }
            },
            None => {},
        }
        i = i + 1;
    }
    false
}

fn first_report_exec(entries: &Vec<ClaudeInstalledPluginEntry>, k: usize) -> (r: bool)
    requires
        k < entries@.len(),
    ensures
        r == first_report(entries@, k as int),
{
    let mut j: usize = 0;
    while j < k
        invariant
            k < entries@.len(),
            0 <= j <= k,
            forall|x: int| 0 <= x < j ==> (#[trigger] entries@[x]).id@ != entries@[k as int].id@,
        decreases k - j,
    {
        if entries[j].id == entries[k].id {
            return false;
        }
        j = j + 1;
    }
    true
}

/// The record synthesised from entry `e` of a newly reported plugin.
fn discover(e: &ClaudeInstalledPluginEntry, urls: &Vec<(String, String)>) -> (r: Option<Plugin>)
    ensures
        r is Some <==> plugin_id_parts(e.id@) is Some,
        r matches Some(p) ==> discovered(p, *e, urls@),
{
    match parse_claude_plugin_id(e.id.as_str()) {
        None => None,
        Some((name, mp)) => {
            let url = repository_url_for(urls, &mp);
            let mut p = Plugin::new(name.clone(), url, mp.clone(), "external".to_string());
            p.discovery_source = Some("claude_cli".to_string());
            Some(apply_installed_entry(p, e, &name, &mp))
        },
    }
}

/// The local records after syncing with the CLI's listing of installed
/// plugins, which wins: every stored record reported by the CLI is updated
/// from its entry, every installed record it no longer reports is flipped
/// back with its install metadata cleared, and each reported plugin no record
/// knows gets a record discovered through the CLI. Records are never
/// removed. When the listing reports a plugin twice, its last entry counts.
pub fn sync_claude_installed_state(
    plugins: Vec<Plugin>,
    entries: &Vec<ClaudeInstalledPluginEntry>,
    marketplace_urls: &Vec<(String, String)>,
) -> (r: Vec<Plugin>)
    ensures
        sync_result(plugins@, entries@, marketplace_urls@, r@),
{
    let ghost old_v = plugins@;
    let n = plugins.len();
    let mut rest = plugins;
    let mut out: Vec<Plugin> = Vec::new();
    while rest.len() > 0
        invariant
            out@.len() + rest@.len() == old_v.len(),
            n == old_v.len(),
            rest@ == old_v.subrange(out@.len() as int, old_v.len() as int),
            forall|i: int| 0 <= i < out@.len() ==> settled(#[trigger] out@[i], old_v[i], entries@),
            forall|i: int|
                0 <= i < out@.len() ==> opt_chars((#[trigger] out@[i]).claude_id) == opt_chars(
                    old_v[i].claude_id,
                ),
        decreases rest@.len(),
    {
        let ghost i = out@.len() as int;
        let p = rest.remove(0);
        assert(p == old_v[i]);
        assert(rest@ =~= old_v.subrange(i + 1, old_v.len() as int));
        out.push(settle_record(p, entries));
    }
    assert forall|id: Seq<char>| #[trigger] known(old_v, id) == (exists|i: int|
        0 <= i < n && has_claude_id(#[trigger] out@[i], id)) by {
        if known(old_v, id) {
            let i = choose|i: int| 0 <= i < old_v.len() && has_claude_id(#[trigger] old_v[i], id);
            assert(has_claude_id(out@[i], id));
        }
        if exists|i: int| 0 <= i < n && has_claude_id(#[trigger] out@[i], id) {
            let i = choose|i: int| 0 <= i < n && has_claude_id(#[trigger] out@[i], id);
            assert(has_claude_id(old_v[i], id));
        }
    }
    let mut k: usize = 0;
    while k < entries.len()
        invariant
            n == old_v.len(),
            0 <= k <= entries@.len(),
            out@.len() == n + newcomers(entries@, old_v, k as int).len(),
            forall|i: int| 0 <= i < n ==> settled(#[trigger] out@[i], old_v[i], entries@),
            forall|id: Seq<char>| #[trigger] known(old_v, id) == (exists|i: int|
                0 <= i < n && has_claude_id(#[trigger] out@[i], id)),
            forall|t: int|
                0 <= t < newcomers(entries@, old_v, k as int).len() ==> discovered(
                    #[trigger] out@[n + t],
                    entries@[reported(
                        entries@,
                        entries@[newcomers(entries@, old_v, k as int)[t]].id@,
                    )->Some_0],
                    marketplace_urls@,
                ),
        decreases entries.len() - k,
    {
        let e = &entries[k];
        let ghost before = out@;
        let ghost nc = newcomers(entries@, old_v, k as int);
        let splits = parse_claude_plugin_id(e.id.as_str()).is_some();
        if splits && !known_exec(&out, n, &e.id) && first_report_exec(entries, k) {
            assert(!known(old_v, e.id@));
            assert(last_entry(entries@, e.id@, k + 1) == Some(k as int));
            assert(reported(entries@, e.id@) is Some) by {
                lemma_last_entry_found(entries@, e.id@, k + 1, entries@.len() as int);
            }
            let j = match last_entry_exec(entries, &e.id) {
                Some(j) => j,
                None => k,
            };
            proof {
                lemma_last_entry_is(entries@, e.id@, entries@.len() as int);
            }
            assert(entries@[j as int].id@ == e.id@);
            match discover(&entries[j], marketplace_urls) {
                Some(q) => {
                    out.push(q);
                },
                None => {},
            }
            assert forall|i: int| 0 <= i < n implies out@[i] == before[i] by {}
            assert forall|id: Seq<char>| #[trigger] known(old_v, id) == (exists|i: int|
                0 <= i < n && has_claude_id(#[trigger] out@[i], id)) by {
                if exists|i: int| 0 <= i < n && has_claude_id(#[trigger] out@[i], id) {
                    let i = choose|i: int| 0 <= i < n && has_claude_id(#[trigger] out@[i], id);
                    assert(has_claude_id(before[i], id));
                }
                if exists|i: int| 0 <= i < n && has_claude_id(#[trigger] before[i], id) {
                    let i = choose|i: int| 0 <= i < n && has_claude_id(#[trigger] before[i], id);
                    assert(has_claude_id(out@[i], id));
                }
            }
            assert(newcomers(entries@, old_v, k + 1) == nc.push(k as int));
            assert forall|t: int|
                0 <= t < nc.len() + 1 implies discovered(
                    #[trigger] out@[n + t],
                    entries@[reported(entries@, entries@[nc.push(k as int)[t]].id@)->Some_0],
                    marketplace_urls@,
                ) by {
                if t < nc.len() {
                    assert(out@[n + t] == before[n + t]);
                } else {
                    assert(entries@[j as int].id@ == e.id@);
                }
            }
        } else {
            assert(newcomers(entries@, old_v, k + 1) == nc);
        }
        k = k + 1;
    }
    out
}

/// `a` equals `b` up to the identity of its name strings, whose characters
/// are the same.
pub open spec fn same_record(a: Plugin, b: Plugin) -> bool {
    &&& a == (Plugin { name: a.name, marketplace_name: a.marketplace_name, ..b })
    &&& a.name@ == b.name@
    &&& a.marketplace_name@ == b.marketplace_name@
}

/// A record already updated from entry `e`: updating it again changes nothing.
pub open spec fn up_to_date(p: Plugin, e: ClaudeInstalledPluginEntry) -> bool {
    &&& p.claude_id == Some(e.id)
    &&& p.installed
    &&& p.installed_version == e.version && p.claude_scope == e.scope
    &&& p.claude_enabled == e.enabled && p.claude_install_path == e.install_path
    &&& p.claude_last_updated == e.last_updated
    &&& (p.installed_at is None ==> e.installed_at is None)
    &&& p.name@.len() > 0 && p.marketplace_name@.len() > 0
}

proof fn lemma_last_at_below(s: Seq<char>, j: int)
    requires
        0 <= j <= s.len(),
    ensures
        crate::cli_args::last_at(s, j) < j,
    decreases j,
{
    if j > 0 && s[j - 1] != '@' {
        lemma_last_at_below(s, j - 1);
    }
}

/// Both parts of a CLI id are non-empty.
proof fn lemma_parts_nonempty(id: Seq<char>)
    requires
        plugin_id_parts(id) is Some,
    ensures
        plugin_id_parts(id)->Some_0.0.len() > 0,
        plugin_id_parts(id)->Some_0.1.len() > 0,
{
    lemma_last_at_below(id, id.len() as int);
}

proof fn lemma_reapply(r: Plugin, p: Plugin, e: ClaudeInstalledPluginEntry)
    requires
        up_to_date(p, e),
        applied_to(r, p, e),
    ensures
        same_record(r, p),
{
}

proof fn lemma_newcomer_listed(
    entries: Seq<ClaudeInstalledPluginEntry>,
    plugins: Seq<Plugin>,
    k: int,
    m: int,
)
    requires
        0 <= k < m <= entries.len(),
        plugin_id_parts(entries[k].id@) is Some,
        !known(plugins, entries[k].id@),
        first_report(entries, k),
    ensures
        exists|t: int|
            0 <= t < newcomers(entries, plugins, m).len() && #[trigger] newcomers(
                entries,
                plugins,
                m,
            )[t] == k,
    decreases m,
{
    let prev = newcomers(entries, plugins, m - 1);
    if k == m - 1 {
        assert(newcomers(entries, plugins, m)[prev.len() as int] == k);
    } else {
        lemma_newcomer_listed(entries, plugins, k, m - 1);
        let t = choose|t: int| 0 <= t < prev.len() && #[trigger] prev[t] == k;
        assert(newcomers(entries, plugins, m)[t] == k);
    }
}

proof fn lemma_no_newcomers(entries: Seq<ClaudeInstalledPluginEntry>, plugins: Seq<Plugin>, m: int)
    requires
        0 <= m <= entries.len(),
        forall|k: int|
            0 <= k < m && plugin_id_parts(entries[k].id@) is Some ==> known(
                plugins,
                #[trigger] entries[k].id@,
            ),
    ensures
        newcomers(entries, plugins, m).len() == 0,
    decreases m,
{
    if m > 0 {
        lemma_no_newcomers(entries, plugins, m - 1);
    }
}

/// Syncing a second time with the same listing changes nothing: no record
/// is added and every record stays as the first sync left it.
pub proof fn lemma_sync_idempotent(
    plugins: Seq<Plugin>,
    entries: Seq<ClaudeInstalledPluginEntry>,
    urls: Seq<(String, String)>,
    r1: Seq<Plugin>,
    r2: Seq<Plugin>,
)
    requires
        sync_result(plugins, entries, urls, r1),
        sync_result(r1, entries, urls, r2),
    ensures
        r2.len() == r1.len(),
        forall|i: int| 0 <= i < r1.len() ==> same_record(#[trigger] r2[i], r1[i]),
{
    let n = plugins.len() as int;
    let fresh = newcomers(entries, plugins, entries.len() as int);
    // every record of the first result that carries a reported id is up to date
    assert forall|i: int| 0 <= i < r1.len() && r1[i].claude_id is Some && reported(
        entries,
        r1[i].claude_id->Some_0@,
    ) is Some implies up_to_date(
        #[trigger] r1[i],
        entries[reported(entries, r1[i].claude_id->Some_0@)->Some_0],
    ) by {
        if i < n {
            assert(settled(r1[i], plugins[i], entries));
            let c0 = plugins[i].claude_id->Some_0;
            if let Some(j) = reported(entries, c0@) {
                lemma_last_entry_is(entries, c0@, entries.len() as int);
                assert(entries[j].id@ == c0@);
                lemma_parts_nonempty(c0@);
                assert(r1[i].claude_id == Some(entries[j].id));
            }
        } else {
            let t = i - n;
            assert(discovered(r1[n + t], entries[reported(entries, entries[fresh[t]].id@)->Some_0], urls));
            let id = entries[fresh[t]].id@;
            lemma_newcomer_in_range(entries, plugins, entries.len() as int, t);
            lemma_fresh_reported(entries, id);
            lemma_last_entry_is(entries, id, entries.len() as int);
            lemma_parts_nonempty(id);
        }
    }
    // no id is new the second time
    assert forall|k: int|
        0 <= k < entries.len() && plugin_id_parts(entries[k].id@) is Some implies known(
            r1,
            #[trigger] entries[k].id@,
        ) by {
        let id = entries[k].id@;
        let f = first_of(entries, id, k);
        lemma_first_of(entries, id, k);
        lemma_last_entry_found(entries, id, f + 1, entries.len() as int);
        assert(last_entry(entries, id, f + 1) == Some(f));
        lemma_last_entry_is(entries, id, entries.len() as int);
        let j = reported(entries, id)->Some_0;
        if known(plugins, id) {
            let i = choose|i: int| 0 <= i < plugins.len() && has_claude_id(#[trigger] plugins[i], id);
            assert(settled(r1[i], plugins[i], entries));
            assert(has_claude_id(r1[i], id));
        } else {
            lemma_newcomer_listed(entries, plugins, f, entries.len() as int);
            let t = choose|t: int| 0 <= t < fresh.len() && #[trigger] fresh[t] == f;
            assert(discovered(r1[n + t], entries[j], urls));
            assert(has_claude_id(r1[n + t], id));
        }
    }
    lemma_no_newcomers(entries, r1, entries.len() as int);
    assert forall|i: int| 0 <= i < r1.len() implies same_record(#[trigger] r2[i], r1[i]) by {
        assert(settled(r2[i], r1[i], entries));
        if let Some(c) = r1[i].claude_id {
            if let Some(j) = reported(entries, c@) {
                assert(up_to_date(r1[i], entries[j]));
                assert(applied_to(r2[i], r1[i], entries[j]));
                lemma_reapply(r2[i], r1[i], entries[j]);
            } else {
                assert(r2[i] == (if r1[i].installed && !listed_id(entries, c@) {
                    cleared(r1[i])
                } else {
                    r1[i]
                }));
                if i < n {
                    assert(settled(r1[i], plugins[i], entries));
                    let c0 = plugins[i].claude_id->Some_0;
                    if let Some(j0) = reported(entries, c0@) {
                        lemma_last_entry_is(entries, c0@, entries.len() as int);
                        assert(false);
                    }
                    assert(!r1[i].installed || listed_id(entries, c@));
                } else {
                    let t = i - n;
                    lemma_newcomer_in_range(entries, plugins, entries.len() as int, t);
                    lemma_fresh_reported(entries, entries[fresh[t]].id@);
                    lemma_last_entry_is(entries, entries[fresh[t]].id@, entries.len() as int);
                    let j = reported(entries, entries[fresh[t]].id@)->Some_0;
                    assert(discovered(r1[n + t], entries[j], urls));
                    assert(c == entries[j].id);
                    assert(false);
                }
            }
        }
    }
}

/// The first entry before `k + 1` with id `id` (`k` itself has it).
pub open spec fn first_of(entries: Seq<ClaudeInstalledPluginEntry>, id: Seq<char>, k: int) -> int
    decreases k,
{
    if k <= 0 {
        0
    } else if exists|j: int| 0 <= j < k && #[trigger] entries[j].id@ == id {
        first_of(entries, id, k - 1)
    } else {
        k
    }
}

proof fn lemma_first_of(entries: Seq<ClaudeInstalledPluginEntry>, id: Seq<char>, k: int)
    requires
        0 <= k < entries.len(),
        entries[k].id@ == id,
    ensures
        0 <= first_of(entries, id, k) <= k,
        entries[first_of(entries, id, k)].id@ == id,
        first_report(entries, first_of(entries, id, k)),
    decreases k,
{
    if k > 0 && exists|j: int| 0 <= j < k && #[trigger] entries[j].id@ == id {
        let j = choose|j: int| 0 <= j < k && #[trigger] entries[j].id@ == id;
        if entries[k - 1].id@ == id {
            lemma_first_of(entries, id, k - 1);
        } else {
            lemma_first_of_any(entries, id, k - 1, j);
        }
    }
}

proof fn lemma_first_of_any(entries: Seq<ClaudeInstalledPluginEntry>, id: Seq<char>, k: int, j: int)
    requires
        0 <= j <= k < entries.len(),
        entries[j].id@ == id,
    ensures
        0 <= first_of(entries, id, k) <= k,
        entries[first_of(entries, id, k)].id@ == id,
        first_report(entries, first_of(entries, id, k)),
    decreases k,
{
    if k > 0 && exists|x: int| 0 <= x < k && #[trigger] entries[x].id@ == id {
        let x = choose|x: int| 0 <= x < k && #[trigger] entries[x].id@ == id;
        lemma_first_of_any(entries, id, k - 1, x);
    } else {
        assert(j == k);
    }
}

proof fn lemma_newcomer_in_range(
    entries: Seq<ClaudeInstalledPluginEntry>,
    plugins: Seq<Plugin>,
    m: int,
    t: int,
)
    requires
        0 <= m <= entries.len(),
        0 <= t < newcomers(entries, plugins, m).len(),
    ensures
        0 <= newcomers(entries, plugins, m)[t] < m,
        plugin_id_parts(entries[newcomers(entries, plugins, m)[t]].id@) is Some,
    decreases m,
{
    if m > 0 {
        let prev = newcomers(entries, plugins, m - 1);
        if t < prev.len() {
            lemma_newcomer_in_range(entries, plugins, m - 1, t);
        }
    }
}

proof fn lemma_fresh_reported(entries: Seq<ClaudeInstalledPluginEntry>, id: Seq<char>)
    requires
        exists|k: int| 0 <= k < entries.len() && #[trigger] entries[k].id@ == id,
        plugin_id_parts(id) is Some,
    ensures
        reported(entries, id) is Some,
{
    let k = choose|k: int| 0 <= k < entries.len() && #[trigger] entries[k].id@ == id;
    assert(last_entry(entries, id, k + 1) == Some(k));
    lemma_last_entry_found(entries, id, k + 1, entries.len() as int);
}

proof fn lemma_last_entry_is(entries: Seq<ClaudeInstalledPluginEntry>, id: Seq<char>, k: int)
    requires
        0 <= k <= entries.len(),
        last_entry(entries, id, k) is Some,
    ensures
        0 <= last_entry(entries, id, k)->Some_0 < k,
        entries[last_entry(entries, id, k)->Some_0].id@ == id,
        plugin_id_parts(id) is Some,
    decreases k,
{
    if !(entries[k - 1].id@ == id && plugin_id_parts(id) is Some) {
        lemma_last_entry_is(entries, id, k - 1);
    }
}

proof fn lemma_last_entry_found(entries: Seq<ClaudeInstalledPluginEntry>, id: Seq<char>, k1: int, k2: int)
    requires
        0 <= k1 <= k2 <= entries.len(),
        last_entry(entries, id, k1) is Some,
    ensures
        last_entry(entries, id, k2) is Some,
    decreases k2 - k1,
{
    if k2 > k1 {
        lemma_last_entry_found(entries, id, k1, k2 - 1);
    }
}

} // verus!
