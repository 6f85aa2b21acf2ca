//! The text form of `plugin marketplace list`, read when the CLI gives no
//! JSON: `> name` opens a marketplace, a later `Source: Kind (value)` line
//! fills in where it comes from.

use vstd::prelude::*;
use crate::lines::{split_lines, text_lines};
use crate::models::ClaudeMarketplace;
use crate::outcome::{lower_of, lowercase};
use crate::report::strings_view;
use crate::source_path::strip_end;
use crate::terminal::{strip_terminal_escapes, stripped};
use crate::text::{
    chars_of, concat, concat3, includes, contains_str, opt_chars, starts_with,
    starts_with_str, string_of, trim, trimmed,
};

verus! {

/// A listed marketplace, as characters.
pub struct MarketView {
    pub name: Seq<char>,
    pub source: Option<Seq<char>>,
    pub repo: Option<Seq<char>>,
    pub repository_url: Option<Seq<char>>,
    pub install_location: Option<Seq<char>>,
}

pub open spec fn market_view(m: ClaudeMarketplace) -> MarketView {
    MarketView {
        name: m.name@,
        source: opt_chars(m.source),
        repo: opt_chars(m.repo),
        repository_url: opt_chars(m.repository_url),
        install_location: opt_chars(m.install_location),
    }
}

/// Where the CLI named `cli` keeps marketplace `name`, under home
/// directory `home`: `<home>/.<cli>/plugins/marketplaces/<name>`.
pub open spec fn default_location(name: Seq<char>, home: Option<Seq<char>>, cli: Seq<char>) -> Option<
    Seq<char>,
> {
    if trim(name).len() == 0 {
        None
    } else {
        match home {
            Some(h) => Some(h + "/."@ + cli + "/plugins/marketplaces/"@ + name),
            None => None,
        }
    }
}

/// Relies on `dirs::home_dir`: the user's home directory, when one is known.
/// What it is depends on the environment.
#[verifier::external_body]
fn home_dir() -> (r: Option<String>) {
    match dirs::home_dir() {
        Some(p) => Some(p.to_string_lossy().to_string()),
        None => None,
    }
}

pub fn default_marketplace_install_location(name: &str, home: &Option<String>, cli: &str) -> (r:
    Option<String>)
    ensures
        opt_chars(r) == default_location(name@, opt_chars(*home), cli@),
{
    let nv = chars_of(name);
    let t = trimmed(&nv);
    if t.as_str().is_empty() {
        return None;
    }
    match home {
        Some(h) => {
            let a = concat3(h.as_str(), "/.", cli);
            Some(concat3(a.as_str(), "/plugins/marketplaces/", name))
        },
        None => None,
    }
}

/// Index of the first `c` in `s`, or `s.len()`.
pub open spec fn first_char(s: Seq<char>, c: char, i: int) -> int
    decreases s.len() - i,
{
    if i < 0 || i >= s.len() {
        s.len() as int
    } else if s[i] == c {
        i
    } else {
        first_char(s, c, i + 1)
    }
}

/// A repository value as a URL: kept when it is one, read as GitHub
/// `owner/repo` when it has a `/`.
pub open spec fn value_url(v: Seq<char>) -> Option<Seq<char>> {
    if starts_with(v, "http://"@) || starts_with(v, "https://"@) {
        Some(v)
    } else if includes(v, "/"@) {
        Some("https://github.com/"@ + v)
    } else {
        None
    }
}

/// The current marketplace after a `Source:` line whose text after the
/// first `:` is `rest`.
pub open spec fn with_source(m: MarketView, rest: Seq<char>) -> MarketView {
    let after = trim(rest);
    if after.len() == 0 {
        m
    } else {
        let p = first_char(after, '(', 0);
        let source_text = if p < after.len() {
            trim(after.subrange(0, p))
        } else {
            after
        };
        let m1 = if source_text.len() > 0 {
            MarketView { source: Some(source_text), ..m }
        } else {
            m
        };
        if p < after.len() {
            let v = trim(strip_end(after.subrange(p + 1, after.len() as int), ')'));
            if v.len() > 0 {
                MarketView { repo: Some(v), repository_url: value_url(v), ..m1 }
            } else {
                m1
            }
        } else {
            m1
        }
    }
}

/// Finished marketplaces and the one being read, after some lines.
pub open spec fn listing_step(
    st: (Seq<MarketView>, Option<MarketView>),
    line: Seq<char>,
    home: Option<Seq<char>>,
    cli: Seq<char>,
) -> (Seq<MarketView>, Option<MarketView>) {
    let t = trim(line);
    if starts_with(t, ">"@) {
        let name = trim(t.subrange(1, t.len() as int));
        if name.len() == 0 {
            st
        } else {
            let fresh = MarketView {
                name,
                source: None,
                repo: None,
                repository_url: None,
                install_location: default_location(name, home, cli),
            };
            match st.1 {
                Some(m) => (st.0.push(m), Some(fresh)),
                None => (st.0, Some(fresh)),
            }
        }
    } else {
        match st.1 {
            None => st,
            Some(m) => if !starts_with(lower_of(t), "source:"@) {
                st
            } else {
                let c = first_char(t, ':', 0);
                let rest = if c < t.len() {
                    t.subrange(c + 1, t.len() as int)
                } else {
                    Seq::empty()
                };
                (st.0, Some(with_source(m, rest)))
            },
        }
    }
}

pub open spec fn listing_run(lines: Seq<Seq<char>>, k: int, home: Option<Seq<char>>, cli: Seq<char>) -> (
    Seq<MarketView>,
    Option<MarketView>,
)
    decreases k,
{
    if k <= 0 {
        (Seq::empty(), None)
    } else {
        listing_step(listing_run(lines, k - 1, home, cli), lines[k - 1], home, cli)
    }
}

/// The marketplaces listed in `output`, with install locations under `home`
/// for the CLI named `cli`.
pub open spec fn marketplace_listing(output: Seq<char>, home: Option<Seq<char>>, cli: Seq<char>) -> Seq<
    MarketView,
> {
    let lines = text_lines(stripped(output));
    let (done, cur) = listing_run(lines, lines.len() as int, home, cli);
    match cur {
        Some(m) => done.push(m),
        None => done,
    }
}

fn first_char_exec(s: &Vec<char>, c: char) -> (r: usize)
    ensures
        r as int == first_char(s@, c, 0),
        r <= s@.len(),
{
    let mut i: usize = 0;
    while i < s.len() && s[i] != c
        invariant
            0 <= i <= s@.len(),
            first_char(s@, c, 0) == first_char(s@, c, i as int),
        decreases s.len() - i,
    {
        i = i + 1;
    }
    i
}

fn sub_chars(s: &Vec<char>, lo: usize, hi: usize) -> (r: Vec<char>)
    requires
        lo <= hi <= s@.len(),
    ensures
        r@ == s@.subrange(lo as int, hi as int),
{
    let mut out: Vec<char> = Vec::new();
    let mut k: usize = lo;
    while k < hi
        invariant
            lo <= k <= hi <= s@.len(),
            out@ == s@.subrange(lo as int, k as int),
        decreases hi - k,
    {
        out.push(s[k]);
        assert(s@.subrange(lo as int, k + 1) == s@.subrange(lo as int, k as int).push(
            s@[k as int],
        ));
        k = k + 1;
    }
    out
}

fn trim_vec(s: &Vec<char>) -> (r: Vec<char>)
    ensures
        r@ == trim(s@),
{
    let t = trimmed(s);
    chars_of(t.as_str())
}

fn strip_close_parens(s: Vec<char>) -> (r: Vec<char>)
    ensures
        r@ == strip_end(s@, ')'),
    decreases s@.len(),
{
    let mut v = s;
    if v.len() > 0 && v[v.len() - 1] == ')' {
        let ghost before = v@;
        v.pop();
        assert(v@ == before.drop_last());
        strip_close_parens(v)
    } else {
        v
    }
}

fn value_url_exec(v: &Vec<char>) -> (r: Option<String>)
    ensures
        opt_chars(r) == value_url(v@),
{
    if starts_with_str(v, "http://") || starts_with_str(v, "https://") {
        Some(string_of(v.as_slice()))
    } else if contains_str(v, "/") {
        let s = string_of(v.as_slice());
        Some(concat("https://github.com/", s.as_str()))
    } else {
        None
    }
}

fn apply_source(m: &mut ClaudeMarketplace, rest: &Vec<char>)
    ensures
        market_view(*final(m)) == with_source(market_view(*old(m)), rest@),
{
    let after = trim_vec(rest);
    if after.len() == 0 {
        return;
    }
    let p = first_char_exec(&after, '(');
    let source_text = if p < after.len() {
        let head = sub_chars(&after, 0, p);
        trim_vec(&head)
    } else {
        after.clone()
    };
    if source_text.len() > 0 {
        m.source = Some(string_of(source_text.as_slice()));
    }
    if p < after.len() {
        let tail = sub_chars(&after, p + 1, after.len());
        let v = trim_vec(&strip_close_parens(tail));
        if v.len() > 0 {
            m.repo = Some(string_of(v.as_slice()));
            m.repository_url = value_url_exec(&v);
        }
    }
}

/// The marketplaces listed in `output`, install locations under `home`.
pub fn parse_marketplace_list_text_with_home(output: &str, home: &Option<String>, cli: &str) -> (r:
    Vec<ClaudeMarketplace>)
    ensures
        r@.map_values(|m: ClaudeMarketplace| market_view(m)) == marketplace_listing(
            output@,
            opt_chars(*home),
            cli@,
        ),
{
    let ghost h = opt_chars(*home);
    let cleaned = strip_terminal_escapes(output);
    let cv = chars_of(cleaned.as_str());
    let lines = split_lines(&cv);
    let ghost lv = strings_view(lines@);
    let mut done: Vec<ClaudeMarketplace> = Vec::new();
    let mut cur: Option<ClaudeMarketplace> = None;
    let mut i: usize = 0;
    while i < lines.len()
        invariant
            lv == strings_view(lines@),
            lv == text_lines(stripped(output@)),
            h == opt_chars(*home),
            0 <= i <= lines@.len(),
            listing_run(lv, i as int, h, cli@) == (
                done@.map_values(|m: ClaudeMarketplace| market_view(m)),
                match cur {
                    Some(m) => Some(market_view(m)),
                    None => None,
                },
            ),
        decreases lines.len() - i,
    {
        let lc = chars_of(lines[i].as_str());
        assert(lv[i as int] == lc@);
        let t = trim_vec(&lc);
        let ghost st = listing_run(lv, i as int, h, cli@);
        if t.len() > 0 && t[0] == '>' {
            assert(starts_with(t@, ">"@)) by {
                reveal_strlit(">");
                assert(t@.subrange(0, 1) =~= ">"@);
            }
            let rest = sub_chars(&t, 1, t.len());
            let name = trim_vec(&rest);
            if name.len() > 0 {
                let name_s = string_of(name.as_slice());
                let loc = default_marketplace_install_location(name_s.as_str(), home, cli);
                let fresh = ClaudeMarketplace {
                    name: name_s,
                    source: None,
                    repo: None,
                    repository_url: None,
                    install_location: loc,
                };
                match cur {
                    Some(m) => {
                        let ghost d0 = done@;
                        done.push(m);
                        assert(done@.map_values(|m: ClaudeMarketplace| market_view(m)) =~= d0.map_values(
                            |m: ClaudeMarketplace| market_view(m),
                        ).push(market_view(m)));
                    },
                    None => {},
                }
                cur = Some(fresh);
            }
        } else {
            assert(!starts_with(t@, ">"@)) by {
                reveal_strlit(">");
                if t@.len() > 0 {
                    assert(t@.subrange(0, 1)[0] == t@[0]);
                }
            }
            match cur {
                None => {},
                Some(mut m) => {
                    let ts = string_of(t.as_slice());
                    let lower = lowercase(ts.as_str());
                    if starts_with_str(&lower, "source:") {
                        let c = first_char_exec(&t, ':');
                        let rest = if c < t.len() {
                            sub_chars(&t, c + 1, t.len())
                        } else {
                            Vec::new()
                        };
                        apply_source(&mut m, &rest);
                    }
                    cur = Some(m);
                },
            }
        }
        i = i + 1;
    }
    match cur {
        Some(m) => {
            let ghost d0 = done@;
            done.push(m);
            assert(done@.map_values(|m: ClaudeMarketplace| market_view(m)) =~= d0.map_values(
                |m: ClaudeMarketplace| market_view(m),
            ).push(market_view(m)));
        },
        None => {},
    }
    done
}

/// The marketplaces listed in the text output of `plugin marketplace list`
/// of the CLI named `cli`; install locations are under the user's home
/// directory.
pub fn parse_marketplace_list_text(output: &str, cli: &str) -> (r: Vec<ClaudeMarketplace>)
    ensures
        exists|h: Option<Seq<char>>|
            r@.map_values(|m: ClaudeMarketplace| market_view(m)) == marketplace_listing(
                output@,
                h,
                cli@,
            ),
{
    let home = home_dir();
    parse_marketplace_list_text_with_home(output, &home, cli)
}

} // verus!
