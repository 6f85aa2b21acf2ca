//! Decisions around installs, updates and removals: which repository a
//! marketplace is added from, which records a removal deletes, whether a
//! marketplace is behind its remote, and whether a skill may be installed.

use vstd::prelude::*;
use crate::cli::ClaudeCommand;
use crate::cli_args::{extract_marketplace_repo_from_command, marketplace_add_repo};
use crate::models::Plugin;
use crate::report::{strings_view, IssueSeverity};
use crate::text::{
    chars_of, concat3, find_str, first_occurrence, is_whitespace_char, is_ws, occurs_at,
    opt_chars, starts_with, starts_with_str, string_of, substring, trim, trimmed,
};

verus! {

/// `plugin update --scope <scope> <id>`: the recorded scope (`user` when
/// none) and CLI id (`name@marketplace` when none); 180 s.
pub fn update_command(p: &Plugin) -> (r: ClaudeCommand)
    ensures
        r.timeout == 180,
        strings_view(r.args@) == seq![
            "plugin"@,
            "update"@,
            "--scope"@,
            match p.claude_scope {
                Some(s) => s@,
                None => "user"@,
            },
            match p.claude_id {
                Some(c) => c@,
                None => p.name@ + "@"@ + p.marketplace_name@,
            },
        ],
{
    let scope = match &p.claude_scope {
        Some(s) => s.clone(),
        None => "user".to_string(),
    };
    let spec = match &p.claude_id {
        Some(c) => c.clone(),
        None => p.plugin_spec(),
    };
    let mut v: Vec<String> = Vec::new();
    v.push("plugin".to_string());
    v.push("update".to_string());
    v.push("--scope".to_string());
    let ghost sv = scope@;
    let ghost pv = spec@;
    v.push(scope);
    v.push(spec);
    assert(strings_view(v@) =~= seq!["plugin"@, "update"@, "--scope"@, sv, pv]);
    ClaudeCommand { args: v, timeout: 180 }
}

/// `owner/repo` of a GitHub URL: the two path segments after `github.com/`,
/// a trailing `.git` dropped from the second.
pub open spec fn repo_slug(url: Seq<char>) -> Option<Seq<char>> {
    let k = first_occurrence(url, "github.com/"@, 0);
    if k >= url.len() {
        None
    } else {
        let rest = url.subrange(k + 11, url.len() as int);
        let a = first_occurrence(rest, "/"@, 0);
        if a == 0 || a >= rest.len() {
            None
        } else {
            let owner = rest.subrange(0, a);
            let tail = rest.subrange(a + 1, rest.len() as int);
            let b = first_occurrence(tail, "/"@, 0);
            let name0 = tail.subrange(0, b);
            let name = if name0.len() >= 4 && name0.subrange(name0.len() - 4, name0.len() as int)
                == ".git"@ {
                name0.subrange(0, name0.len() - 4)
            } else {
                name0
            };
            if name.len() == 0 {
                None
            } else {
                Some(owner + "/"@ + name)
            }
        }
    }
}

proof fn lemma_found(s: Seq<char>, p: Seq<char>, i: int)
    requires
        0 <= i,
        first_occurrence(s, p, i) < s.len(),
    ensures
        occurs_at(s, p, first_occurrence(s, p, i)),
        first_occurrence(s, p, i) >= i,
    decreases s.len() - i,
{
    if i < s.len() && !occurs_at(s, p, i) {
        lemma_found(s, p, i + 1);
    }
}

proof fn lemma_bounded(s: Seq<char>, p: Seq<char>, i: int)
    requires
        0 <= i <= s.len(),
    ensures
        i <= first_occurrence(s, p, i) <= s.len(),
    decreases s.len() - i,
{
    if i < s.len() && !occurs_at(s, p, i) {
        lemma_bounded(s, p, i + 1);
    }
}

fn slice_of(s: &Vec<char>, lo: usize, hi: usize) -> (r: Vec<char>)
    requires
        lo <= hi <= s@.len(),
    ensures
        r@ == s@.subrange(lo as int, hi as int),
{
    let mut out: Vec<char> = Vec::new();
    let mut k: usize = lo;
    while k < hi
        invariant
            lo <= k <= hi <= s@.len(),
            out@ == s@.subrange(lo as int, k as int),
        decreases hi - k,
    {
        out.push(s[k]);
        assert(s@.subrange(lo as int, k + 1) == s@.subrange(lo as int, k as int).push(
            s@[k as int],
        ));
        k = k + 1;
    }
    out
}

pub fn github_repo_slug(url: &str) -> (r: Option<String>)
    ensures
        opt_chars(r) == repo_slug(url@),
{
    let s = chars_of(url);
    proof {
        reveal_strlit("github.com/");
        reveal_strlit("/");
        reveal_strlit(".git");
    }
    match find_str(&s, "github.com/") {
        None => None,
        Some(k) => {
            proof {
                lemma_found(s@, "github.com/"@, 0);
            }
            let n = s.len();
            let rest = slice_of(&s, k + 11, n);
            let a = match find_str(&rest, "/") {
                Some(a) => a,
                None => rest.len(),
            };
            proof {
                lemma_bounded(rest@, "/"@, 0);
            }
            if a == 0 || a >= rest.len() {
                return None;
            }
            let owner = slice_of(&rest, 0, a);
            let tail = slice_of(&rest, a + 1, rest.len());
            let b = match find_str(&tail, "/") {
                Some(b) => b,
                None => tail.len(),
            };
            proof {
                lemma_bounded(tail@, "/"@, 0);
            }
            let name0 = slice_of(&tail, 0, b);
            let m = name0.len();
            let git = m >= 4 && name0[m - 4] == '.' && name0[m - 3] == 'g' && name0[m - 2] == 'i'
                && name0[m - 1] == 't';
            assert(m >= 4 ==> (git == (name0@.subrange(m - 4, m as int) == ".git"@))) by {
                if m >= 4 {
                    if git {
                        assert(name0@.subrange(m - 4, m as int) =~= ".git"@);
                    }
                    if name0@.subrange(m - 4, m as int) == ".git"@ {
                        assert(name0@.subrange(m - 4, m as int)[0] == '.');
                        assert(name0@.subrange(m - 4, m as int)[1] == 'g');
                        assert(name0@.subrange(m - 4, m as int)[2] == 'i');
                        assert(name0@.subrange(m - 4, m as int)[3] == 't');
                    }
                }
            }
            let name = if git {
                slice_of(&name0, 0, m - 4)
            } else {
                name0
            };
            if name.len() == 0 {
                None
            } else {
                let o = string_of(owner.as_slice());
                let nm = string_of(name.as_slice());
                Some(concat3(o.as_str(), "/", nm.as_str()))
            }
        },
    }
}

/// The repository given to `plugin marketplace add`: the one in the
/// marketplace's own add command, else the GitHub `owner/repo` of the
/// plugin's repository URL.
pub open spec fn marketplace_repo(p: Plugin) -> Option<Seq<char>> {
    let from_cmd = match p.marketplace_add_command {
        Some(c) => marketplace_add_repo(c@),
        None => None,
    };
    match from_cmd {
        Some(r) => Some(r),
        None => repo_slug(p.repository_url@),
    }
}

pub fn marketplace_repo_of(p: &Plugin) -> (r: Option<String>)
    ensures
        opt_chars(r) == marketplace_repo(*p),
{
    let from_cmd = match &p.marketplace_add_command {
        Some(c) => extract_marketplace_repo_from_command(c.as_str()),
        None => None,
    };
    match from_cmd {
        Some(r) => Some(r),
        None => github_repo_slug(p.repository_url.as_str()),
    }
}

/// What removing a marketplace does to its plugin records: when the CLI
/// removed it, every record whose uninstall did not fail is deleted; the
/// removal succeeds only if every uninstall did too. `uninstalled[i]` is the
/// outcome of uninstalling record `i`, `None` when it was not installed.
pub fn removal_plan(uninstalled: &Vec<Option<bool>>, removed: bool) -> (r: (Vec<bool>, bool))
    ensures
        r.0@.len() == uninstalled@.len(),
        forall|i: int|
            0 <= i < uninstalled@.len() ==> #[trigger] r.0@[i] == (removed && uninstalled@[i]
                != Some(false)),
        r.1 == (removed && forall|i: int|
            0 <= i < uninstalled@.len() ==> #[trigger] uninstalled@[i] != Some(false)),
{
    let mut delete: Vec<bool> = Vec::new();
    let mut all_ok = true;
    let mut i: usize = 0;
    while i < uninstalled.len()
        invariant
            0 <= i <= uninstalled@.len(),
            delete@.len() == i,
            forall|k: int|
                0 <= k < i ==> #[trigger] delete@[k] == (removed && uninstalled@[k] != Some(false)),
            all_ok == forall|k: int| 0 <= k < i ==> #[trigger] uninstalled@[k] != Some(false),
        decreases uninstalled.len() - i,
    {
        let ok = match uninstalled[i] {
            Some(false) => false,
            _ => true,
        };
        delete.push(removed && ok);
        if !ok {
            all_ok = false;
        }
        i = i + 1;
    }
    (delete, removed && all_ok)
}

/// The URL `git ls-remote` is asked about for a marketplace repository.
pub open spec fn remote_url(repo: Seq<char>) -> Seq<char> {
    if starts_with(repo, "http://"@) || starts_with(repo, "https://"@) {
        repo
    } else {
        "https://github.com/"@ + repo + ".git"@
    }
}

pub fn remote_git_url(repo: &str) -> (r: String)
    ensures
        r@ == remote_url(repo@),
{
    let v = chars_of(repo);
    if starts_with_str(&v, "http://") || starts_with_str(&v, "https://") {
        repo.to_string()
    } else {
        concat3("https://github.com/", repo, ".git")
    }
}

/// The first whitespace-separated token of `s`.
pub open spec fn first_token(s: Seq<char>) -> Seq<char> {
    let t = trim(s);
    t.subrange(0, token_end(t, 0))
}

/// Index of the first whitespace character of `t` at or after `i`.
pub open spec fn token_end(t: Seq<char>, i: int) -> int
    decreases t.len() - i,
{
    if i < 0 || i >= t.len() {
        t.len() as int
    } else if is_ws(t[i]) {
        i
    } else {
        token_end(t, i + 1)
    }
}

/// A marketplace is behind when the remote head (first token of `ls-remote`)
/// differs from the local one; the update names its first 12 characters.
pub open spec fn head_update(local: Seq<char>, remote: Seq<char>) -> Option<Seq<char>> {
    let l = trim(local);
    let h = first_token(remote);
    if l.len() == 0 || h.len() == 0 || h == l {
        None
    } else if h.len() <= 12 {
        Some(h)
    } else {
        Some(h.subrange(0, 12))
    }
}

fn same(a: &Vec<char>, b: &Vec<char>) -> (r: bool)
    ensures
        r == (a@ == b@),
{
    if a.len() != b.len() {
        return false;
    }
    let mut i: usize = 0;
    while i < a.len()
        invariant
            a@.len() == b@.len(),
            0 <= i <= a@.len(),
            forall|k: int| 0 <= k < i ==> a@[k] == b@[k],
        decreases a.len() - i,
    {
        if a[i] != b[i] {
            return false;
        }
        i = i + 1;
    }
    assert(a@ =~= b@);
    true
}

pub fn marketplace_head_update(local_head: &str, ls_remote: &str) -> (r: Option<String>)
    ensures
        opt_chars(r) == head_update(local_head@, ls_remote@),
{
    let lv = chars_of(local_head);
    let l = chars_of(trimmed(&lv).as_str());
    let rv = chars_of(ls_remote);
    let t = chars_of(trimmed(&rv).as_str());
    let mut e: usize = 0;
    while e < t.len() && !is_whitespace_char(t[e])
        invariant
            0 <= e <= t@.len(),
            token_end(t@, 0) == token_end(t@, e as int),
        decreases t.len() - e,
    {
        e = e + 1;
    }
    let h = slice_of(&t, 0, e);
    if l.len() == 0 || h.len() == 0 || same(&h, &l) {
        None
    } else if h.len() <= 12 {
        Some(string_of(h.as_slice()))
    } else {
        Some(substring(&h, 0, 12))
    }
}

/// A stored issue line `Severity: description` read back; any unknown
/// severity word reads as `Info`.
pub open spec fn severity_named(w: Seq<char>) -> IssueSeverity {
    if w == "Critical"@ {
        IssueSeverity::Critical
    } else if w == "Error"@ {
        IssueSeverity::Error
    } else if w == "Warning"@ {
        IssueSeverity::Warning
    } else {
        IssueSeverity::Info
    }
}

pub open spec fn issue_line(s: Seq<char>) -> Option<(IssueSeverity, Seq<char>)> {
    let k = first_occurrence(s, ": "@, 0);
    if k >= s.len() {
        None
    } else {
        Some((severity_named(s.subrange(0, k)), s.subrange(k + 2, s.len() as int)))
    }
}

fn named(w: &Vec<char>, lit: &str) -> (r: bool)
    ensures
        r == (w@ == lit@),
{
    let l = chars_of(lit);
    same(w, &l)
}

pub fn parse_issue_line(s: &str) -> (r: Option<(IssueSeverity, String)>)
    ensures
        match r {
            Some(p) => issue_line(s@) == Some((p.0, p.1@)),
            None => issue_line(s@) is None,
        },
{
    let v = chars_of(s);
    proof {
        reveal_strlit(": ");
    }
    match find_str(&v, ": ") {
        None => None,
        Some(k) => {
            proof {
                lemma_found(v@, ": "@, 0);
            }
            let n = v.len();
            let w = slice_of(&v, 0, k);
            let sev = if named(&w, "Critical") {
                IssueSeverity::Critical
            } else if named(&w, "Error") {
                IssueSeverity::Error
            } else if named(&w, "Warning") {
                IssueSeverity::Warning
            } else {
                IssueSeverity::Info
            };
            Some((sev, substring(&v, k + 2, n)))
        },
    }
}

/// A skill whose last scan scored below 50 is not installed.
pub fn skill_install_allowed(score: Option<i32>) -> (r: bool)
    ensures
        r == match score {
            Some(s) => s >= 50,
            None => true,
        },
{
    match score {
        Some(s) => s >= 50,
        None => true,
    }
}

} // verus!
