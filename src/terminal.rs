//! Cleaning of captured terminal output: removal of ANSI control sequences and
//! location of the JSON values embedded in otherwise noisy text.

use vstd::prelude::*;
use crate::text::{chars_of, string_of, substring};
use vstd::string::StringSliceAdditionalSpecFns;

verus! {

/// Where the escape-sequence scanner stands after some prefix of the input.
#[derive(Debug, Clone, Copy, PartialEq, Eq, Structural)]
pub enum EscState {
    /// Ordinary text: characters are kept.
    Text,
    /// Just read `ESC`.
    Escape,
    /// Inside `ESC [ ...`, waiting for a final byte in `@..=~`.
    Csi,
    /// Inside `ESC ] ...`, waiting for `BEL` or `ESC \`.
    Osc,
    /// Inside an OSC sequence, just read `ESC`.
    OscEscape,
}

/// One character of the scanner: the next state, and whether `c` is kept.
pub open spec fn esc_step(st: EscState, c: char) -> (EscState, bool) {
    match st {
        EscState::Text => if c == '\u{1b}' {
            (EscState::Escape, false)
        } else {
            (EscState::Text, true)
        },
        EscState::Escape => if c == '[' {
            (EscState::Csi, false)
        } else if c == ']' {
            (EscState::Osc, false)
        } else {
            (EscState::Text, false)
        },
        EscState::Csi => if '@' <= c && c <= '~' {
            (EscState::Text, false)
        } else {
            (EscState::Csi, false)
        },
        EscState::Osc => if c == '\u{07}' {
            (EscState::Text, false)
        } else if c == '\u{1b}' {
            (EscState::OscEscape, false)
        } else {
            (EscState::Osc, false)
        },
        EscState::OscEscape => if c == '\\' || c == '\u{07}' {
            (EscState::Text, false)
        } else if c == '\u{1b}' {
            (EscState::OscEscape, false)
        } else {
            (EscState::Osc, false)
        },
    }
}

/// The scanner run over `s`: its final state and the characters kept.
pub open spec fn esc_run(s: Seq<char>) -> (EscState, Seq<char>)
    decreases s.len(),
{
    if s.len() == 0 {
        (EscState::Text, Seq::empty())
    } else {
        let (st, kept) = esc_run(s.drop_last());
        let (next, keep) = esc_step(st, s.last());
        (next, if keep {
            kept.push(s.last())
        } else {
            kept
        })
    }
}

/// `s` without its CSI and OSC sequences; any other `ESC` drops itself and
/// the character after it.
pub open spec fn stripped(s: Seq<char>) -> Seq<char> {
    esc_run(s).1
}

pub fn escape_step(st: EscState, c: char) -> (r: (EscState, bool))
    ensures
        r == esc_step(st, c),
{
    match st {
        EscState::Text => if c == '\u{1b}' {
            (EscState::Escape, false)
        } else {
            (EscState::Text, true)
        },
        EscState::Escape => if c == '[' {
            (EscState::Csi, false)
        } else if c == ']' {
            (EscState::Osc, false)
        } else {
            (EscState::Text, false)
        },
        EscState::Csi => if '@' <= c && c <= '~' {
            (EscState::Text, false)
        } else {
            (EscState::Csi, false)
        },
        EscState::Osc => if c == '\u{07}' {
            (EscState::Text, false)
        } else if c == '\u{1b}' {
            (EscState::OscEscape, false)
        } else {
            (EscState::Osc, false)
        },
        EscState::OscEscape => if c == '\\' || c == '\u{07}' {
            (EscState::Text, false)
        } else if c == '\u{1b}' {
            (EscState::OscEscape, false)
        } else {
            (EscState::Osc, false)
        },
    }
}

/// The characters of `s` that survive escape stripping.
pub fn strip_escape_chars(s: &Vec<char>) -> (r: Vec<char>)
    ensures
        r@ == stripped(s@),
{
    let mut out: Vec<char> = Vec::new();
    let mut st = EscState::Text;
    let mut i: usize = 0;
    while i < s.len()
        invariant
            0 <= i <= s@.len(),
            (st, out@) == esc_run(s@.subrange(0, i as int)),
        decreases s.len() - i,
    {
        let c = s[i];
        assert(s@.subrange(0, i + 1).drop_last() == s@.subrange(0, i as int));
        let (next, keep) = escape_step(st, c);
        if keep {
            out.push(c);
        }
        st = next;
        i = i + 1;
    }
    assert(s@.subrange(0, s@.len() as int) == s@);
    out
}

/// Removes ANSI CSI (`ESC [ ... final`) and OSC (`ESC ] ... BEL` or
/// `ESC ] ... ESC \`) sequences; any other `ESC` is dropped with the
/// character after it.
pub fn strip_terminal_escapes(input: &str) -> (r: String)
    ensures
        r@ == stripped(input@),
{
    let s = chars_of(input);
    let out = strip_escape_chars(&s);
    string_of(out.as_slice())
}

pub open spec fn is_open_bracket(c: char) -> bool {
    c == '{' || c == '['
}

pub open spec fn is_close_bracket(c: char) -> bool {
    c == '}' || c == ']'
}

/// First index at or after `i` holding `{` or `[`, or `s.len()`.
pub open spec fn first_open(s: Seq<char>, i: int) -> int
    decreases s.len() - i,
{
    if i < 0 || i >= s.len() {
        s.len() as int
    } else if is_open_bracket(s[i]) {
        i
    } else {
        first_open(s, i + 1)
    }
}

/// Last index before `j` holding `}` or `]`, or `-1`.
pub open spec fn last_close(s: Seq<char>, j: int) -> int
    decreases j,
{
    if j <= 0 || j > s.len() {
        -1
    } else if is_close_bracket(s[j - 1]) {
        j - 1
    } else {
        last_close(s, j - 1)
    }
}

/// The span from the first opening bracket to the last closing one.
pub open spec fn json_payload(s: Seq<char>) -> Option<Seq<char>> {
    let a = first_open(s, 0);
    let b = last_close(s, s.len() as int);
    if a < s.len() && 0 <= b && a <= b {
        Some(s.subrange(a, b + 1))
    } else {
        None
    }
}

/// The text from the first `{`/`[` to the last `}`/`]`, when the first comes
/// before the last.
pub fn extract_json_payload(output: &str) -> (r: Option<String>)
    ensures
        r matches Some(p) ==> json_payload(output@) == Some(p@),
        r is None ==> json_payload(output@) is None,
{
    let s = chars_of(output);
    let n = s.len();
    let mut a: usize = 0;
    while a < n && !(s[a] == '{' || s[a] == '[')
        invariant
            0 <= a <= n == s@.len(),
            first_open(s@, 0) == first_open(s@, a as int),
        decreases n - a,
    {
        a = a + 1;
    }
    let mut b: usize = n;
    while b > 0 && !(s[b - 1] == '}' || s[b - 1] == ']')
        invariant
            0 <= b <= n == s@.len(),
            last_close(s@, n as int) == last_close(s@, b as int),
        decreases b,
    {
        b = b - 1;
    }
    if a < n && b > 0 && a <= b - 1 {
        Some(substring(&s, a, b))
    } else {
        None
    }
}

/// Where serde_json's streaming reader ends the first complete JSON value at
/// the start of `b`, if one is there.
pub uninterp spec fn json_value_len(b: Seq<u8>) -> Option<usize>;

/// Relies on serde_json's `StreamDeserializer`: whether `b` starts (after
/// whitespace) with a complete JSON value, and its `byte_offset` after it.
#[verifier::external_body]
fn first_json_value_end(b: &[u8]) -> (r: Option<usize>)
    ensures
        r == json_value_len(b@),
{
    let mut stream = serde_json::Deserializer::from_slice(b).into_iter::<serde_json::Value>();
    match stream.next() {
        Some(Ok(_)) => Some(stream.byte_offset()),
        _ => None,
    }
}

pub open spec fn is_open_byte(x: u8) -> bool {
    x == 123u8 || x == 91u8
}

/// The byte spans of the JSON values met by a left-to-right search from
/// `pos`: at each `{` or `[` a complete value is taken and the search goes on
/// after it; where none parses, the search goes on from the next byte.
pub open spec fn json_spans_from(b: Seq<u8>, pos: int) -> Seq<(usize, usize)>
    decreases b.len() - pos,
{
    if pos < 0 || pos >= b.len() {
        Seq::empty()
    } else if !is_open_byte(b[pos]) {
        json_spans_from(b, pos + 1)
    } else {
        match json_value_len(b.subrange(pos, b.len() as int)) {
            Some(end) => if 0 < end && end <= b.len() - pos {
                seq![(pos as usize, (pos + end) as usize)] + json_spans_from(b, pos + end)
            } else {
                json_spans_from(b, pos + 1)
            },
            None => json_spans_from(b, pos + 1),
        }
    }
}

/// The byte spans of the candidate JSON values in `text`, in order. Callers
/// try each in turn against the shape they expect, so that an unrelated value
/// (a progress event, say) does not end the search.
pub fn json_candidates(text: &str) -> (r: Vec<(usize, usize)>)
    ensures
        r@ == json_spans_from(text.spec_bytes(), 0),
{
    let b = text.as_bytes();
    let n = b.len();
    let mut spans: Vec<(usize, usize)> = Vec::new();
    let mut pos: usize = 0;
    while pos < n
        invariant
            n == b@.len(),
            0 <= pos <= n,
            json_spans_from(b@, 0) == spans@ + json_spans_from(b@, pos as int),
        decreases n - pos,
    {
        if b[pos] == 123u8 || b[pos] == 91u8 {
            let rest = &b[pos..n];
            match first_json_value_end(rest) {
                Some(end) => {
                    if 0 < end && end <= n - pos {
                        let ghost before = spans@;
                        spans.push((pos, pos + end));
                        assert(before + json_spans_from(b@, pos as int) == spans@
                            + json_spans_from(b@, pos + end));
                        pos = pos + end;
                    } else {
                        pos = pos + 1;
                    }
                },
                None => {
                    pos = pos + 1;
                },
            }
        } else {
            pos = pos + 1;
        }
    }
    assert(spans@ + Seq::<(usize, usize)>::empty() == spans@);
    spans
}

} // verus!
