//! Update checks against the CLI's listings: installed plugins with a newer
//! offered version, and installed skills that also exist as plugins.

use vstd::prelude::*;
use crate::cli_args::{parse_claude_plugin_id, plugin_id_parts};
use crate::models::{
    ClaudeAvailablePluginEntry, ClaudeInstalledPluginEntry, ClaudeMarketplace, Plugin, Skill,
    SkillPluginUpgradeCandidate,
};
use crate::outcome::{lower_of, lowercase};
use crate::text::{chars_of, in_strings, opt_chars, trim, trimmed};

verus! {

/// The version offered for plugin `id`: that of the last of the first `k`
/// available entries for it whose version is not blank.
pub open spec fn offered(av: Seq<ClaudeAvailablePluginEntry>, id: Seq<char>, k: int) -> Option<
    Seq<char>,
>
    decreases k,
{
    if k <= 0 {
        None
    } else {
        let e = av[k - 1];
        match e.version {
            Some(v) => if e.plugin_id@ == id && trim(v@).len() > 0 {
                Some(v@)
            } else {
                offered(av, id, k - 1)
            },
            None => offered(av, id, k - 1),
        }
    }
}

/// The last of the first `k` records with CLI id `id`.
pub open spec fn owner_of(plugins: Seq<Plugin>, id: Seq<char>, k: int) -> Option<int>
    decreases k,
{
    if k <= 0 {
        None
    } else {
        match plugins[k - 1].claude_id {
            Some(c) => if c@ == id {
                Some(k - 1)
            } else {
                owner_of(plugins, id, k - 1)
            },
            None => owner_of(plugins, id, k - 1),
        }
    }
}

/// The update reported for installed entry `e`, if any: the record's id and
/// the offered version, when both versions are known and differ.
pub open spec fn update_for(
    e: ClaudeInstalledPluginEntry,
    av: Seq<ClaudeAvailablePluginEntry>,
    plugins: Seq<Plugin>,
) -> Option<(Seq<char>, Seq<char>)> {
    let iv = match e.version {
        Some(v) => v@,
        None => Seq::empty(),
    };
    match offered(av, e.id@, av.len() as int) {
        None => None,
        Some(l) => if trim(iv).len() == 0 || l == iv {
            None
        } else {
            match owner_of(plugins, e.id@, plugins.len() as int) {
                Some(i) => Some((plugins[i].id@, l)),
                None => None,
            }
        },
    }
}

pub open spec fn updates_upto(
    inst: Seq<ClaudeInstalledPluginEntry>,
    av: Seq<ClaudeAvailablePluginEntry>,
    plugins: Seq<Plugin>,
    k: int,
) -> Seq<(Seq<char>, Seq<char>)>
    decreases k,
{
    if k <= 0 {
        Seq::empty()
    } else {
        updates_upto(inst, av, plugins, k - 1) + match update_for(inst[k - 1], av, plugins) {
            Some(u) => seq![u],
            None => Seq::empty(),
        }
    }
}

pub open spec fn pairs_view(v: Seq<(String, String)>) -> Seq<(Seq<char>, Seq<char>)> {
    v.map_values(|p: (String, String)| (p.0@, p.1@))
}

fn offered_exec(av: &Vec<ClaudeAvailablePluginEntry>, id: &String) -> (r: Option<String>)
    ensures
        opt_chars(r) == offered(av@, id@, av@.len() as int),
{
    let mut k: usize = av.len();
    while k > 0
        invariant
            0 <= k <= av@.len(),
            offered(av@, id@, av@.len() as int) == offered(av@, id@, k as int),
        decreases k,
    {
        let e = &av[k - 1];
        match &e.version {
            Some(v) => {
                if e.plugin_id == *id {
                    let vc = chars_of(v.as_str());
                    let t = trimmed(&vc);
                    if !t.as_str().is_empty() {
                        return Some(v.clone());
                    }
                }
            },
            None => {},
        }
        k = k - 1;
    }
    None
}

fn owner_exec(plugins: &Vec<Plugin>, id: &String) -> (r: Option<usize>)
    ensures
        match r {
            Some(i) => owner_of(plugins@, id@, plugins@.len() as int) == Some(i as int) && i
                < plugins@.len(),
            None => owner_of(plugins@, id@, plugins@.len() as int) is None,
        },
{
    let mut k: usize = plugins.len();
    while k > 0
        invariant
            0 <= k <= plugins@.len(),
            owner_of(plugins@, id@, plugins@.len() as int) == owner_of(plugins@, id@, k as int),
        decreases k,
    {
        match &plugins[k - 1].claude_id {
            Some(c) => {
                if *c == *id {
                    return Some(k - 1);
                }
            },
            None => {},
        }
        k = k - 1;
    }
    None
}

/// The installed plugins with a newer offered version, as pairs of record id
/// and offered version, in the order of `installed`.
pub fn plugin_updates(
    installed: &Vec<ClaudeInstalledPluginEntry>,
    available: &Vec<ClaudeAvailablePluginEntry>,
    plugins: &Vec<Plugin>,
) -> (r: Vec<(String, String)>)
    ensures
        pairs_view(r@) == updates_upto(installed@, available@, plugins@, installed@.len() as int),
{
    let mut out: Vec<(String, String)> = Vec::new();
    let mut k: usize = 0;
    while k < installed.len()
        invariant
            0 <= k <= installed@.len(),
            pairs_view(out@) == updates_upto(installed@, available@, plugins@, k as int),
        decreases installed.len() - k,
    {
        let e = &installed[k];
        let iv = match &e.version {
            Some(v) => v.clone(),
            None => String::new(),
        };
        match offered_exec(available, &e.id) {
            None => {},
            Some(latest) => {
                let ivc = chars_of(iv.as_str());
                let t = trimmed(&ivc);
                if !t.as_str().is_empty() && !(latest == iv) {
                    match owner_exec(plugins, &e.id) {
                        Some(i) => {
                            let ghost before = out@;
                            out.push((plugins[i].id.clone(), latest));
                            assert(pairs_view(out@) =~= pairs_view(before).push(
                                (plugins@[i as int].id@, latest@),
                            ));
                        },
                        None => {},
                    }
                }
            },
        }
        k = k + 1;
    }
    out
}

/// The lower-cased plugin name of an available entry (its `name`, else the
/// name part of its id), when not blank.
pub open spec fn name_key(e: ClaudeAvailablePluginEntry) -> Option<Seq<char>> {
    let n = match e.name {
        Some(v) => v@,
        None => match plugin_id_parts(e.plugin_id@) {
            Some(p) => p.0,
            None => Seq::empty(),
        },
    };
    if trim(n).len() == 0 {
        None
    } else {
        Some(lower_of(n))
    }
}

/// Whether entry `e` comes from the preferred marketplace.
pub open spec fn preferred_entry(e: ClaudeAvailablePluginEntry, preferred: Seq<char>) -> bool {
    match e.marketplace_name {
        Some(m) => m@ == preferred,
        None => preferred.len() == 0,
    }
}

/// Among the first `k` entries named `key`: the first, unless a later one
/// comes from the preferred marketplace while it does not.
pub open spec fn best_for(
    av: Seq<ClaudeAvailablePluginEntry>,
    key: Seq<char>,
    preferred: Seq<char>,
    k: int,
) -> Option<int>
    decreases k,
{
    if k <= 0 {
        None
    } else {
        let b = best_for(av, key, preferred, k - 1);
        if name_key(av[k - 1]) == Some(key) {
            match b {
                None => Some(k - 1),
                Some(i) => if preferred_entry(av[k - 1], preferred) && !preferred_entry(
                    av[i],
                    preferred,
                ) {
                    Some(k - 1)
                } else {
                    Some(i)
                },
            }
        } else {
            b
        }
    }
}

/// The last of the first `k` marketplaces named `name`.
pub open spec fn market_named(ms: Seq<ClaudeMarketplace>, name: Seq<char>, k: int) -> Option<int>
    decreases k,
{
    if k <= 0 {
        None
    } else if ms[k - 1].name@ == name {
        Some(k - 1)
    } else {
        market_named(ms, name, k - 1)
    }
}

pub struct CandidateView {
    pub skill_id: Seq<char>,
    pub skill_name: Seq<char>,
    pub plugin_id: Seq<char>,
    pub plugin_name: Seq<char>,
    pub marketplace_name: Seq<char>,
    pub marketplace_repo: Option<Seq<char>>,
    pub marketplace_repository_url: Option<Seq<char>>,
    pub latest_version: Option<Seq<char>>,
    pub reason: Seq<char>,
}

pub open spec fn candidate_view(c: SkillPluginUpgradeCandidate) -> CandidateView {
    CandidateView {
        skill_id: c.skill_id@,
        skill_name: c.skill_name@,
        plugin_id: c.plugin_id@,
        plugin_name: c.plugin_name@,
        marketplace_name: c.marketplace_name@,
        marketplace_repo: opt_chars(c.marketplace_repo),
        marketplace_repository_url: opt_chars(c.marketplace_repository_url),
        latest_version: opt_chars(c.latest_version),
        reason: c.reason@,
    }
}

/// The plugin suggested for installed skill `s`: the best available plugin
/// of the same (lower-cased) name, when not installed already.
pub open spec fn candidate_for(
    s: Skill,
    av: Seq<ClaudeAvailablePluginEntry>,
    installed_ids: Seq<String>,
    ms: Seq<ClaudeMarketplace>,
    preferred: Seq<char>,
) -> Option<CandidateView> {
    let sn = trim(s.name@);
    if !s.installed || sn.len() == 0 {
        None
    } else {
        match best_for(av, lower_of(sn), preferred, av.len() as int) {
            None => None,
            Some(i) => match plugin_id_parts(av[i].plugin_id@) {
                None => None,
                Some(parts) => if in_strings(installed_ids, av[i].plugin_id@) {
                    None
                } else {
                    let m = market_named(ms, parts.1, ms.len() as int);
                    Some(
                        CandidateView {
                            skill_id: s.id@,
                            skill_name: s.name@,
                            plugin_id: av[i].plugin_id@,
                            plugin_name: parts.0,
                            marketplace_name: parts.1,
                            marketplace_repo: match m {
                                Some(j) => opt_chars(ms[j].repo),
                                None => None,
                            },
                            marketplace_repository_url: match m {
                                Some(j) => opt_chars(ms[j].repository_url),
                                None => None,
                            },
                            latest_version: opt_chars(av[i].version),
                            reason: "name_match"@,
                        },
                    )
                },
            },
        }
    }
}

pub open spec fn candidates_upto(
    skills: Seq<Skill>,
    av: Seq<ClaudeAvailablePluginEntry>,
    installed_ids: Seq<String>,
    ms: Seq<ClaudeMarketplace>,
    preferred: Seq<char>,
    k: int,
) -> Seq<CandidateView>
    decreases k,
{
    if k <= 0 {
        Seq::empty()
    } else {
        candidates_upto(skills, av, installed_ids, ms, preferred, k - 1) + match candidate_for(
            skills[k - 1],
            av,
            installed_ids,
            ms,
            preferred,
        ) {
            Some(c) => seq![c],
            None => Seq::empty(),
        }
    }
}

fn same_chars(a: &Vec<char>, b: &Vec<char>) -> (r: bool)
    ensures
        r == (a@ == b@),
{
    if a.len() != b.len() {
        return false;
    }
    let mut i: usize = 0;
    while i < a.len()
        invariant
            a@.len() == b@.len(),
            0 <= i <= a@.len(),
            forall|k: int| 0 <= k < i ==> a@[k] == b@[k],
        decreases a.len() - i,
    {
        if a[i] != b[i] {
            return false;
        }
        i = i + 1;
    }
    assert(a@ =~= b@);
    true
}

fn name_key_exec(e: &ClaudeAvailablePluginEntry) -> (r: Option<Vec<char>>)
    ensures
        match r {
            Some(v) => name_key(*e) == Some(v@),
            None => name_key(*e) is None,
        },
{
    let n = match &e.name {
        Some(v) => v.clone(),
        None => match parse_claude_plugin_id(e.plugin_id.as_str()) {
            Some((name, _)) => name,
            None => String::new(),
        },
    };
    let nc = chars_of(n.as_str());
    let t = trimmed(&nc);
    if t.as_str().is_empty() {
        None
    } else {
        Some(lowercase(n.as_str()))
    }
}

fn is_preferred(e: &ClaudeAvailablePluginEntry, preferred: &String) -> (r: bool)
    ensures
        r == preferred_entry(*e, preferred@),
{
    match &e.marketplace_name {
        Some(m) => *m == *preferred,
        None => preferred.as_str().is_empty(),
    }
}

fn market_exec(ms: &Vec<ClaudeMarketplace>, name: &String) -> (r: Option<usize>)
    ensures
        match r {
            Some(j) => market_named(ms@, name@, ms@.len() as int) == Some(j as int) && j
                < ms@.len(),
            None => market_named(ms@, name@, ms@.len() as int) is None,
        },
{
    let mut k: usize = ms.len();
    while k > 0
        invariant
            0 <= k <= ms@.len(),
            market_named(ms@, name@, ms@.len() as int) == market_named(ms@, name@, k as int),
        decreases k,
    {
        if ms[k - 1].name == *name {
            return Some(k - 1);
        }
        k = k - 1;
    }
    None
}

fn clone_opt(o: &Option<String>) -> (r: Option<String>)
    ensures
        opt_chars(r) == opt_chars(*o),
{
    match o {
        Some(s) => Some(s.clone()),
        None => None,
    }
}

/// Installed skills that also exist as plugins not yet installed: for each,
/// the best same-named plugin (entries of marketplace `preferred` win over
/// others), with where its marketplace comes from.
pub fn upgrade_candidates(
    skills: &Vec<Skill>,
    available: &Vec<ClaudeAvailablePluginEntry>,
    installed_ids: &Vec<String>,
    marketplaces: &Vec<ClaudeMarketplace>,
    preferred: &String,
) -> (r: Vec<SkillPluginUpgradeCandidate>)
    ensures
        r@.map_values(|c: SkillPluginUpgradeCandidate| candidate_view(c)) == candidates_upto(
            skills@,
            available@,
            installed_ids@,
            marketplaces@,
            preferred@,
            skills@.len() as int,
        ),
{
    let mut keys: Vec<Option<Vec<char>>> = Vec::new();
    let mut a: usize = 0;
    while a < available.len()
        invariant
            0 <= a <= available@.len(),
            keys@.len() == a,
            forall|x: int|
                0 <= x < a ==> match #[trigger] keys@[x] {
                    Some(v) => name_key(available@[x]) == Some(v@),
                    None => name_key(available@[x]) is None,
                },
        decreases available.len() - a,
    {
        keys.push(name_key_exec(&available[a]));
        a = a + 1;
    }
    let mut out: Vec<SkillPluginUpgradeCandidate> = Vec::new();
    let mut k: usize = 0;
    while k < skills.len()
        invariant
            0 <= k <= skills@.len(),
            keys@.len() == available@.len(),
            forall|x: int|
                0 <= x < available@.len() ==> match #[trigger] keys@[x] {
                    Some(v) => name_key(available@[x]) == Some(v@),
                    None => name_key(available@[x]) is None,
                },
            out@.map_values(|c: SkillPluginUpgradeCandidate| candidate_view(c)) == candidates_upto(
                skills@,
                available@,
                installed_ids@,
                marketplaces@,
                preferred@,
                k as int,
            ),
        decreases skills.len() - k,
    {
        let s = &skills[k];
        let ghost before = out@;
        let sc = chars_of(s.name.as_str());
        let sn = trimmed(&sc);
        if s.installed && !sn.as_str().is_empty() {
            let key = lowercase(sn.as_str());
            let mut best: Option<usize> = None;
            let mut i: usize = 0;
            while i < available.len()
                invariant
                    0 <= i <= available@.len(),
                    keys@.len() == available@.len(),
                    forall|x: int|
                        0 <= x < available@.len() ==> match #[trigger] keys@[x] {
                            Some(v) => name_key(available@[x]) == Some(v@),
                            None => name_key(available@[x]) is None,
                        },
                    match best {
                        Some(b) => best_for(available@, key@, preferred@, i as int) == Some(
                            b as int,
                        ) && b < i,
                        None => best_for(available@, key@, preferred@, i as int) is None,
                    },
                decreases available.len() - i,
            {
                let matches_key = match &keys[i] {
                    Some(v) => same_chars(v, &key),
                    None => false,
                };
                if matches_key {
                    match best {
                        None => {
                            best = Some(i);
                        },
                        Some(b) => {
                            if is_preferred(&available[i], preferred) && !is_preferred(
                                &available[b],
                                preferred,
                            ) {
                                best = Some(i);
                            }
                        },
                    }
                }
                i = i + 1;
            }
            match best {
                None => {},
                Some(b) => {
                    let e = &available[b];
                    match parse_claude_plugin_id(e.plugin_id.as_str()) {
                        None => {},
                        Some((plugin_name, marketplace_name)) => {
                            if !crate::text::contains_string(installed_ids, &e.plugin_id) {
                                let m = market_exec(marketplaces, &marketplace_name);
                                let (repo, url) = match m {
                                    Some(j) => (
                                        clone_opt(&marketplaces[j].repo),
                                        clone_opt(&marketplaces[j].repository_url),
                                    ),
                                    None => (None, None),
                                };
                                out.push(
                                    SkillPluginUpgradeCandidate {
                                        skill_id: s.id.clone(),
                                        skill_name: s.name.clone(),
                                        plugin_id: e.plugin_id.clone(),
                                        plugin_name,
                                        marketplace_name,
                                        marketplace_repo: repo,
                                        marketplace_repository_url: url,
                                        latest_version: clone_opt(&e.version),
                                        reason: "name_match".to_string(),
                                    },
                                );
                            }
                        },
                    }
                },
            }
        }
        assert(out@.map_values(|c: SkillPluginUpgradeCandidate| candidate_view(c))
            =~= candidates_upto(
            skills@,
            available@,
            installed_ids@,
            marketplaces@,
            preferred@,
            k + 1,
        ));
        k = k + 1;
    }
    out
}

} // verus!
