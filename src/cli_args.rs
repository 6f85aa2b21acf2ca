//! Parsing of the CLI's identifiers and of slash commands.

use vstd::prelude::*;
use crate::text::{
    chars_of, concat, is_whitespace_char, is_ws, starts_with, starts_with_str, string_of,
    substring, trim, trim_bounds, trimmed,
};
use crate::report::strings_view;

verus! {

/// Index of the last `@` before `j`, or -1.
pub open spec fn last_at(s: Seq<char>, j: int) -> int
    decreases j,
{
    if j <= 0 || j > s.len() {
        -1
    } else if s[j - 1] == '@' {
        j - 1
    } else {
        last_at(s, j - 1)
    }
}

/// `name@marketplace`, split at the last `@`; both parts non-empty.
pub open spec fn plugin_id_parts(s: Seq<char>) -> Option<(Seq<char>, Seq<char>)> {
    let k = last_at(s, s.len() as int);
    if k < 0 || k == 0 || k + 1 == s.len() {
        None
    } else {
        Some((s.subrange(0, k), s.subrange(k + 1, s.len() as int)))
    }
}

/// Splits a CLI plugin id `name@marketplace` at its last `@`.
pub fn parse_claude_plugin_id(id: &str) -> (r: Option<(String, String)>)
    ensures
        r matches Some(p) ==> plugin_id_parts(id@) == Some((p.0@, p.1@)),
        r is None ==> plugin_id_parts(id@) is None,
{
    let s = chars_of(id);
    let n = s.len();
    let mut j: usize = n;
    while j > 0 && s[j - 1] != '@'
        invariant
            0 <= j <= n == s@.len(),
            last_at(s@, n as int) == last_at(s@, j as int),
        decreases j,
    {
        j = j - 1;
    }
    if j == 0 || j == 1 || j == n {
        return None;
    }
    let k = j - 1;
    Some((substring(&s, 0, k), substring(&s, k + 1, n)))
}

/// The words of `s`: finished words and the word being read.
pub open spec fn words_run(s: Seq<char>) -> (Seq<Seq<char>>, Seq<char>)
    decreases s.len(),
{
    if s.len() == 0 {
        (Seq::empty(), Seq::empty())
    } else {
        let (done, cur) = words_run(s.drop_last());
        if is_ws(s.last()) {
            if cur.len() > 0 {
                (done.push(cur), Seq::empty())
            } else {
                (done, Seq::empty())
            }
        } else {
            (done, cur.push(s.last()))
        }
    }
}

/// What `str::split_whitespace` yields.
pub open spec fn words(s: Seq<char>) -> Seq<Seq<char>> {
    let (done, cur) = words_run(s);
    if cur.len() > 0 {
        done.push(cur)
    } else {
        done
    }
}

/// `str::split_whitespace`.
pub fn split_words(s: &Vec<char>) -> (r: Vec<String>)
    ensures
        strings_view(r@) == words(s@),
{
    let mut done: Vec<String> = Vec::new();
    let mut cur: Vec<char> = Vec::new();
    let mut i: usize = 0;
    while i < s.len()
        invariant
            0 <= i <= s@.len(),
            (strings_view(done@), cur@) == words_run(s@.subrange(0, i as int)),
        decreases s.len() - i,
    {
        let c = s[i];
        assert(s@.subrange(0, i + 1).drop_last() == s@.subrange(0, i as int));
        if is_whitespace_char(c) {
            if cur.len() > 0 {
                let ghost before = done@;
                done.push(string_of(cur.as_slice()));
                assert(strings_view(done@) =~= strings_view(before).push(cur@));
                cur = Vec::new();
            }
        } else {
            cur.push(c);
        }
        i = i + 1;
    }
    assert(s@.subrange(0, i as int) == s@);
    if cur.len() > 0 {
        let ghost before = done@;
        done.push(string_of(cur.as_slice()));
        assert(strings_view(done@) =~= strings_view(before).push(cur@));
    }
    done
}

/// The arguments of a slash command such as `/plugin install x@y`: trimmed,
/// one leading `/` dropped, split at whitespace; only `plugin` commands.
pub open spec fn slash_args(s: Seq<char>) -> Option<Seq<Seq<char>>> {
    let t = trim(s);
    if t.len() == 0 {
        None
    } else {
        let u = if t[0] == '/' {
            t.subrange(1, t.len() as int)
        } else {
            t
        };
        let w = words(u);
        if w.len() > 0 && w[0] == "plugin"@ {
            Some(w)
        } else {
            None
        }
    }
}

pub fn parse_slash_command_args(command: &str) -> (r: Option<Vec<String>>)
    ensures
        r matches Some(v) ==> slash_args(command@) == Some(strings_view(v@)),
        r is None ==> slash_args(command@) is None,
{
    let s = chars_of(command);
    let (lo, hi) = trim_bounds(&s);
    if lo == hi {
        return None;
    }
    let start = if s[lo] == '/' {
        lo + 1
    } else {
        lo
    };
    let mut u: Vec<char> = Vec::new();
    let mut k: usize = start;
    let ghost t = trim(s@);
    assert(t == s@.subrange(lo as int, hi as int));
    while k < hi
        invariant
            lo <= start <= k <= hi <= s@.len(),
            u@ == s@.subrange(start as int, k as int),
        decreases hi - k,
    {
        u.push(s[k]);
        assert(s@.subrange(start as int, k + 1) == s@.subrange(start as int, k as int).push(
            s@[k as int],
        ));
        k = k + 1;
    }
    assert(u@ == (if t[0] == '/' {
        t.subrange(1, t.len() as int)
    } else {
        t
    }));
    let w = split_words(&u);
    if w.len() > 0 && w[0] == "plugin".to_string() {
        Some(w)
    } else {
        None
    }
}

/// The repository argument of a `plugin marketplace add <repo>` command.
pub open spec fn marketplace_add_repo(s: Seq<char>) -> Option<Seq<char>> {
    match slash_args(s) {
        Some(w) => if w.len() >= 4 && w[0] == "plugin"@ && w[1] == "marketplace"@ && w[2]
            == "add"@ {
            Some(w[3])
        } else {
            None
        },
        None => None,
    }
}

pub fn extract_marketplace_repo_from_command(command: &str) -> (r: Option<String>)
    ensures
        r matches Some(v) ==> marketplace_add_repo(command@) == Some(v@),
        r is None ==> marketplace_add_repo(command@) is None,
{
    match parse_slash_command_args(command) {
        Some(parts) => {
            assert(strings_view(parts@).len() == parts@.len());
            if parts.len() >= 4 && parts[0] == "plugin".to_string() && parts[1]
                == "marketplace".to_string() && parts[2] == "add".to_string() {
                assert(strings_view(parts@)[3] == parts@[3]@);
                Some(parts[3].clone())
            } else {
                assert(strings_view(parts@)[0] == parts@[0]@);
                assert(parts@.len() >= 4 ==> strings_view(parts@)[1] == parts@[1]@
                    && strings_view(parts@)[2] == parts@[2]@);
                None
            }
        },
        None => None,
    }
}

/// A repository given as a URL stays as it is; `owner/repo` is read as a
/// GitHub repository.
pub open spec fn repo_url(repo: Seq<char>) -> Option<Seq<char>> {
    let t = trim(repo);
    if t.len() == 0 {
        None
    } else if starts_with(t, "http://"@) || starts_with(t, "https://"@) {
        Some(t)
    } else {
        Some("https://github.com/"@ + t)
    }
}

/// The repository URL of a marketplace whose `repo` field is `repo`.
pub fn marketplace_repo_url(repo: &Option<String>) -> (r: Option<String>)
    ensures
        match *repo {
            Some(x) => match repo_url(x@) {
                Some(u) => r matches Some(v) && v@ == u,
                None => r is None,
            },
            None => r is None,
        },
{
    match repo {
        None => None,
        Some(x) => {
            let s = chars_of(x.as_str());
            let t = trimmed(&s);
            let tv = chars_of(t.as_str());
            if tv.len() == 0 {
                None
            } else if starts_with_str(&tv, "http://") || starts_with_str(&tv, "https://") {
                Some(t)
            } else {
                Some(concat("https://github.com/", t.as_str()))
            }
        },
    }
}

} // verus!
