//! Plugin source paths from marketplace manifests: normalisation, and the
//! traversal guard that refuses parent-directory and absolute paths.

use vstd::prelude::*;
use crate::text::{chars_of, concat, concat3, string_of, trim, trim_bounds};

verus! {

/// Leading `./` pieces removed, one after another.
pub open spec fn strip_dot_slash(s: Seq<char>) -> Seq<char>
    decreases s.len(),
{
    if s.len() >= 2 && s[0] == '.' && s[1] == '/' {
        strip_dot_slash(s.subrange(2, s.len() as int))
    } else {
        s
    }
}

/// Trailing `c` characters removed.
pub open spec fn strip_end(s: Seq<char>, c: char) -> Seq<char>
    decreases s.len(),
{
    if s.len() > 0 && s.last() == c {
        strip_end(s.drop_last(), c)
    } else {
        s
    }
}

/// The normal form of a manifest's `source`: trimmed, without leading `./`
/// and trailing separators; `.` for the repository root.
pub open spec fn normalized(s: Seq<char>) -> Seq<char> {
    let t = trim(s);
    if t == "."@ || t == "./"@ {
        "."@
    } else {
        let u = strip_end(strip_end(strip_dot_slash(t), '/'), '\\');
        if u.len() == 0 {
            "."@
        } else {
            u
        }
    }
}

fn strip_dot_slash_exec(s: Vec<char>) -> (r: Vec<char>)
    ensures
        r@ == strip_dot_slash(s@),
    decreases s@.len(),
{
    if s.len() >= 2 && s[0] == '.' && s[1] == '/' {
        let mut rest: Vec<char> = Vec::new();
        let mut k: usize = 2;
        while k < s.len()
            invariant
                2 <= k <= s@.len(),
                rest@ == s@.subrange(2, k as int),
            decreases s.len() - k,
        {
            rest.push(s[k]);
            assert(s@.subrange(2, k + 1) == s@.subrange(2, k as int).push(s@[k as int]));
            k = k + 1;
        }
        strip_dot_slash_exec(rest)
    } else {
        s
    }
}

fn strip_end_exec(s: Vec<char>, c: char) -> (r: Vec<char>)
    ensures
        r@ == strip_end(s@, c),
    decreases s@.len(),
{
    let mut v = s;
    if v.len() > 0 && v[v.len() - 1] == c {
        let ghost before = v@;
        v.pop();
        assert(v@ == before.drop_last());
        strip_end_exec(v, c)
    } else {
        v
    }
}

fn chars_between(s: &Vec<char>, lo: usize, hi: usize) -> (r: Vec<char>)
    requires
        lo <= hi <= s@.len(),
    ensures
        r@ == s@.subrange(lo as int, hi as int),
{
    let mut out: Vec<char> = Vec::new();
    let mut k: usize = lo;
    while k < hi
        invariant
            lo <= k <= hi <= s@.len(),
            out@ == s@.subrange(lo as int, k as int),
        decreases hi - k,
    {
        out.push(s[k]);
        assert(s@.subrange(lo as int, k + 1) == s@.subrange(lo as int, k as int).push(
            s@[k as int],
        ));
        k = k + 1;
    }
    out
}

fn is_seq(v: &Vec<char>, lit: &str) -> (r: bool)
    ensures
        r == (v@ == lit@),
{
    let l = chars_of(lit);
    if v.len() != l.len() {
        return false;
    }
    let mut i: usize = 0;
    while i < v.len()
        invariant
            v@.len() == l@.len(),
            l@ == lit@,
            0 <= i <= v@.len(),
            forall|k: int| 0 <= k < i ==> v@[k] == l@[k],
        decreases v.len() - i,
    {
        if v[i] != l[i] {
            return false;
        }
        i = i + 1;
    }
    assert(v@ =~= l@);
    true
}

pub fn normalize_source(source: &str) -> (r: String)
    ensures
        r@ == normalized(source@),
{
    let s = chars_of(source);
    let (lo, hi) = trim_bounds(&s);
    let t = chars_between(&s, lo, hi);
    if is_seq(&t, ".") || is_seq(&t, "./") {
        return ".".to_string();
    }
    let u = strip_end_exec(strip_end_exec(strip_dot_slash_exec(t), '/'), '\\');
    if u.len() == 0 {
        ".".to_string()
    } else {
        string_of(u.as_slice())
    }
}

pub open spec fn is_sep(c: char) -> bool {
    c == '/' || c == '\\'
}

/// A `..` component starts at `i`.
pub open spec fn parent_at(s: Seq<char>, i: int) -> bool {
    0 <= i && i + 2 <= s.len() && s[i] == '.' && s[i + 1] == '.' && (i == 0 || is_sep(s[i - 1]))
        && (i + 2 == s.len() || is_sep(s[i + 2]))
}

/// Paths that leave the repository: a `..` component, a leading separator,
/// or a drive prefix such as `C:`. Both `/` and a backslash count as separators
/// and drive prefixes are refused on every platform, so the guard is
/// stricter than `std::path::Path` on Unix: a manifest cannot rely on
/// platform-specific path syntax to escape.
pub open spec fn escapes_root(s: Seq<char>) -> bool {
    (s.len() > 0 && is_sep(s[0])) || (s.len() >= 2 && s[1] == ':') || exists|i: int|
        #[trigger] parent_at(s, i)
}

#[derive(Debug, Clone, Copy, PartialEq, Eq, Structural)]
pub enum SourcePathError {
    /// The source names a parent directory or an absolute path.
    OutsideRepository,
}

fn escapes_root_exec(s: &Vec<char>) -> (r: bool)
    ensures
        r == escapes_root(s@),
{
    if s.len() > 0 && (s[0] == '/' || s[0] == '\\') {
        return true;
    }
    if s.len() >= 2 && s[1] == ':' {
        return true;
    }
    let n = s.len();
    let mut i: usize = 0;
    while i < n
        invariant
            n == s@.len(),
            0 <= i <= n,
            forall|j: int| 0 <= j < i ==> !#[trigger] parent_at(s@, j),
        decreases n - i,
    {
        if n - i >= 2 && s[i] == '.' && s[i + 1] == '.' && (i == 0 || s[i - 1] == '/' || s[i - 1]
            == '\\') && (i + 2 == n || s[i + 2] == '/' || s[i + 2] == '\\') {
            assert(parent_at(s@, i as int));
            return true;
        }
        i = i + 1;
    }
    assert forall|j: int| !#[trigger] parent_at(s@, j) by {
        if 0 <= j < n {
        }
    }
    false
}

/// The directory of a plugin whose manifest `source` is `source`, under
/// `repo_root`; refused when the source leaves the repository.
pub open spec fn resolved(root: Seq<char>, source: Seq<char>) -> Result<Seq<char>, SourcePathError> {
    let n = normalized(source);
    if n == "."@ {
        Ok(root)
    } else if escapes_root(n) {
        Err(SourcePathError::OutsideRepository)
    } else if root.len() == 0 {
        Ok(n)
    } else if root.last() == '/' {
        Ok(root + n)
    } else {
        Ok(root + "/"@ + n)
    }
}

pub fn resolve_source_path(repo_root: &str, source: &str) -> (r: Result<String, SourcePathError>)
    ensures
        match r {
            Ok(p) => resolved(repo_root@, source@) == Ok::<Seq<char>, SourcePathError>(p@),
            Err(e) => resolved(repo_root@, source@) == Err::<Seq<char>, SourcePathError>(e),
        },
{
    let n = normalize_source(source);
    let nv = chars_of(n.as_str());
    if is_seq(&nv, ".") {
        return Ok(repo_root.to_string());
    }
    if escapes_root_exec(&nv) {
        return Err(SourcePathError::OutsideRepository);
    }
    let rv = chars_of(repo_root);
    if rv.len() == 0 {
        Ok(n)
    } else if rv[rv.len() - 1] == '/' {
        Ok(concat(repo_root, n.as_str()))
    } else {
        Ok(concat3(repo_root, "/", n.as_str()))
    }
}

} // verus!
