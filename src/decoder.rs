//! Text detection for scanned files: UTF-8, UTF-16 (by byte-order mark or by
//! the parity of NUL bytes), or binary. A decoded candidate is kept only when
//! it looks like text.

use vstd::prelude::*;
use crate::text::{chars_of, string_of};

verus! {

/// Bytes examined by the NUL-parity test.
pub const SAMPLE_BYTES: usize = 4096;

/// Characters examined by the looks-like-text test.
pub const SAMPLE_CHARS: usize = 4096;

pub open spec fn is_high_surrogate(u: int) -> bool {
    0xD800 <= u <= 0xDBFF
}

pub open spec fn is_low_surrogate(u: int) -> bool {
    0xDC00 <= u <= 0xDFFF
}

pub open spec fn code_point(c: char) -> int {
    c as u32 as int
}

/// The character whose scalar value is `v`.
pub open spec fn scalar_char(v: int) -> char {
    choose|c: char| #[trigger] code_point(c) == v
}

/// The 16-bit units of `b`, two bytes each (a trailing odd byte is dropped).
pub open spec fn utf16_units(b: Seq<u8>, le: bool) -> Seq<int> {
    Seq::new(
        b.len() / 2,
        |i: int|
            if le {
                b[2 * i] + 256 * b[2 * i + 1]
            } else {
                256 * b[2 * i] + b[2 * i + 1]
            },
    )
}

/// UTF-16 decoding in which every unpaired surrogate becomes U+FFFD.
pub open spec fn utf16_decode(us: Seq<int>) -> Seq<char>
    decreases us.len(),
{
    if us.len() == 0 {
        Seq::empty()
    } else if us.len() >= 2 && is_high_surrogate(us[0]) && is_low_surrogate(us[1]) {
        seq![scalar_char(0x10000 + (us[0] - 0xD800) * 1024 + (us[1] - 0xDC00))]
            + utf16_decode(us.subrange(2, us.len() as int))
    } else if is_high_surrogate(us[0]) || is_low_surrogate(us[0]) {
        seq!['\u{FFFD}'] + utf16_decode(us.subrange(1, us.len() as int))
    } else {
        seq![scalar_char(us[0])] + utf16_decode(us.subrange(1, us.len() as int))
    }
}

/// A control character other than tab, line feed and carriage return.
pub open spec fn is_control(c: char) -> bool {
    ((c as u32) < 0x20 && c != '\t' && c != '\n' && c != '\r') || c as u32 == 0x7F
}

/// Number of control characters among `s[..k]`.
pub open spec fn control_count(s: Seq<char>, k: int) -> int
    decreases k,
{
    if k <= 0 {
        0
    } else {
        control_count(s, k - 1) + if is_control(s[k - 1]) {
            1int
        } else {
            0
        }
    }
}

/// Number of replacement characters among `s[..k]`.
pub open spec fn replacement_count(s: Seq<char>, k: int) -> int
    decreases k,
{
    if k <= 0 {
        0
    } else {
        replacement_count(s, k - 1) + if s[k - 1] == '\u{FFFD}' {
            1int
        } else {
            0
        }
    }
}

pub open spec fn sample_len(len: int, cap: int) -> int {
    if len < cap {
        len
    } else {
        cap
    }
}

/// Over the first `SAMPLE_CHARS` characters: fewer than 2% control
/// characters and fewer than 5% replacement characters.
pub open spec fn looks_like_text(s: Seq<char>) -> bool {
    let n = sample_len(s.len() as int, SAMPLE_CHARS as int);
    n == 0 || (50 * control_count(s, n) < n && 20 * replacement_count(s, n) < n)
}

/// Number of NUL bytes among `b[..k]` at even (`odd == false`) or odd
/// positions.
pub open spec fn nul_count(b: Seq<u8>, k: int, odd: bool) -> int
    decreases k,
{
    if k <= 0 {
        0
    } else {
        nul_count(b, k - 1, odd) + if b[k - 1] == 0 && ((k - 1) % 2 == 1) == odd {
            1int
        } else {
            0
        }
    }
}

/// UTF-16 without a byte-order mark, guessed from the sample: `Some(true)` for
/// little-endian (NULs at odd positions), `Some(false)` for big-endian.
pub open spec fn utf16_guess(b: Seq<u8>) -> Option<bool> {
    let m = sample_len(b.len() as int, SAMPLE_BYTES as int);
    let even = nul_count(b, m, false);
    let odd = nul_count(b, m, true);
    let evens = (m + 1) / 2;
    let odds = m / 2;
    if 10 * (even + odd) <= m {
        None
    } else if 10 * odd > 6 * odds && 10 * even < 2 * evens {
        Some(true)
    } else if 10 * even > 6 * evens && 10 * odd < 2 * odds {
        Some(false)
    } else {
        None
    }
}

pub open spec fn has_nul(b: Seq<u8>) -> bool {
    exists|i: int| 0 <= i < b.len() && b[i] == 0
}

pub open spec fn accept(t: Seq<char>) -> Option<Seq<char>> {
    if looks_like_text(t) {
        Some(t)
    } else {
        None
    }
}

/// The text of a file's bytes, or `None` for binary.
pub open spec fn decode_text(b: Seq<u8>) -> Option<Seq<char>> {
    if b.len() >= 2 && b[0] == 0xFF && b[1] == 0xFE {
        accept(utf16_decode(utf16_units(b.subrange(2, b.len() as int), true)))
    } else if b.len() >= 2 && b[0] == 0xFE && b[1] == 0xFF {
        accept(utf16_decode(utf16_units(b.subrange(2, b.len() as int), false)))
    } else if has_nul(b) {
        match utf16_guess(b) {
            Some(le) => accept(utf16_decode(utf16_units(b, le))),
            None => None,
        }
    } else if vstd::utf8::valid_utf8(b) {
        accept(vstd::utf8::decode_utf8(b))
    } else {
        None
    }
}

/// Relies on `char::from_u32`: `Some` exactly for Unicode scalar values,
/// holding that value.
#[verifier::external_body]
fn char_from(v: u32) -> (r: Option<char>)
    ensures
        r is Some <==> (v < 0xD800 || (0xE000 <= v && v <= 0x10FFFF)),
        r matches Some(c) ==> c as u32 == v,
{
    char::from_u32(v)
}

/// Relies on `std::str::from_utf8`: it succeeds exactly on valid UTF-8, and
/// the string then holds the decoded characters.
#[verifier::external_body]
fn utf8_chars(b: &[u8]) -> (r: Option<Vec<char>>)
    ensures
        r is Some <==> vstd::utf8::valid_utf8(b@),
        r matches Some(v) ==> v@ == vstd::utf8::decode_utf8(b@),
{
    match std::str::from_utf8(b) {
        Ok(s) => Some(s.chars().collect()),
        Err(_) => None,
    }
}

proof fn lemma_scalar_char(c: char)
    ensures
        scalar_char(c as u32 as int) == c,
{
    let d = scalar_char(c as u32 as int);
    assert(code_point(c) == c as u32 as int);
    assert(code_point(d) == c as u32 as int);
}

/// The character of a valid scalar value.
fn scalar_exec(v: u32) -> (r: char)
    requires
        v < 0xD800 || (0xE000 <= v && v <= 0x10FFFF),
    ensures
        r == scalar_char(v as int),
{
    match char_from(v) {
        Some(c) => {
            proof {
                lemma_scalar_char(c);
            }
            c
        },
        None => '\u{FFFD}',
    }
}

/// Lossy UTF-16 decoding of `b` (without its first `skip` bytes).
fn decode_utf16(b: &[u8], skip: usize, le: bool) -> (r: Vec<char>)
    requires
        skip <= b@.len(),
    ensures
        r@ == utf16_decode(utf16_units(b@.subrange(skip as int, b@.len() as int), le)),
{
    let ghost bs = b@.subrange(skip as int, b@.len() as int);
    let ghost us = utf16_units(bs, le);
    let n = (b.len() - skip) / 2;
    let mut out: Vec<char> = Vec::new();
    let mut i: usize = 0;
    assert(us.subrange(0, n as int) == us);
    while i < n
        invariant
            skip <= b@.len(),
            n == us.len(),
            bs == b@.subrange(skip as int, b@.len() as int),
            us == utf16_units(bs, le),
            0 <= i <= n,
            utf16_decode(us) == out@ + utf16_decode(us.subrange(i as int, n as int)),
        decreases n - i,
    {
        let ghost rest = us.subrange(i as int, n as int);
        let u = unit_of(b, skip, i, le);
        assert(u as int == us[i as int]);
        if i + 1 < n && 0xD800 <= u && u <= 0xDBFF {
            let w = unit_of(b, skip, i + 1, le);
            assert(w as int == us[i + 1]);
            if 0xDC00 <= w && w <= 0xDFFF {
                let v = 0x10000 + (u - 0xD800) * 1024 + (w - 0xDC00);
                let c = scalar_exec(v);
                out.push(c);
                assert(rest.subrange(2, rest.len() as int) == us.subrange(i + 2, n as int));
                i = i + 2;
                continue;
            }
        }
        if 0xD800 <= u && u <= 0xDFFF {
            out.push('\u{FFFD}');
        } else {
            out.push(scalar_exec(u));
        }
        assert(rest.subrange(1, rest.len() as int) == us.subrange(i + 1, n as int));
        i = i + 1;
    }
    assert(us.subrange(n as int, n as int) == Seq::<int>::empty());
    out
}

/// Unit `i` of `b` past its first `skip` bytes.
fn unit_of(b: &[u8], skip: usize, i: usize, le: bool) -> (r: u32)
    requires
        skip <= b@.len(),
        i < (b@.len() - skip) / 2,
    ensures
        r as int == utf16_units(b@.subrange(skip as int, b@.len() as int), le)[i as int],
        r <= 0xFFFF,
{
    let len = b.len();
    let base = skip + 2 * i;
    let lo = b[base];
    let hi = b[base + 1];
    let ghost bs = b@.subrange(skip as int, b@.len() as int);
    assert(bs[2 * i] == lo && bs[2 * i + 1] == hi);
    if le {
        lo as u32 + 256 * (hi as u32)
    } else {
        256 * (lo as u32) + hi as u32
    }
}


/// Whether `s` looks like text (see `looks_like_text`).
pub fn is_text_like(s: &Vec<char>) -> (r: bool)
    ensures
        r == looks_like_text(s@),
{
    let n = if s.len() < SAMPLE_CHARS {
        s.len()
    } else {
        SAMPLE_CHARS
    };
    let mut ctrl: usize = 0;
    let mut repl: usize = 0;
    let mut i: usize = 0;
    while i < n
        invariant
            n <= s@.len(),
            n <= SAMPLE_CHARS,
            0 <= i <= n,
            ctrl as int == control_count(s@, i as int),
            repl as int == replacement_count(s@, i as int),
            ctrl <= i,
            repl <= i,
        decreases n - i,
    {
        let c = s[i];
        let v = c as u32;
        if (v < 0x20 && c != '\t' && c != '\n' && c != '\r') || v == 0x7F {
            ctrl = ctrl + 1;
        }
        if c == '\u{FFFD}' {
            repl = repl + 1;
        }
        i = i + 1;
    }
    n == 0 || (50 * ctrl < n && 20 * repl < n)
}

/// NUL counts over the byte sample, at even and at odd positions.
fn nul_counts(b: &[u8]) -> (r: (usize, usize))
    ensures
        r.0 as int == nul_count(b@, sample_len(b@.len() as int, SAMPLE_BYTES as int), false),
        r.1 as int == nul_count(b@, sample_len(b@.len() as int, SAMPLE_BYTES as int), true),
        r.0 + r.1 <= SAMPLE_BYTES,
{
    let m = if b.len() < SAMPLE_BYTES {
        b.len()
    } else {
        SAMPLE_BYTES
    };
    let mut even: usize = 0;
    let mut odd: usize = 0;
    let mut i: usize = 0;
    while i < m
        invariant
            m <= b@.len(),
            m <= SAMPLE_BYTES,
            m as int == sample_len(b@.len() as int, SAMPLE_BYTES as int),
            0 <= i <= m,
            even as int == nul_count(b@, i as int, false),
            odd as int == nul_count(b@, i as int, true),
            even + odd <= i,
        decreases m - i,
    {
        if b[i] == 0 {
            if i % 2 == 1 {
                odd = odd + 1;
            } else {
                even = even + 1;
            }
        }
        i = i + 1;
    }
    (even, odd)
}

fn guess_utf16(b: &[u8]) -> (r: Option<bool>)
    ensures
        r == utf16_guess(b@),
{
    let m = if b.len() < SAMPLE_BYTES {
        b.len()
    } else {
        SAMPLE_BYTES
    };
    let (even, odd) = nul_counts(b);
    let evens = (m + 1) / 2;
    let odds = m / 2;
    if 10 * (even + odd) <= m {
        None
    } else if 10 * odd > 6 * odds && 10 * even < 2 * evens {
        Some(true)
    } else if 10 * even > 6 * evens && 10 * odd < 2 * odds {
        Some(false)
    } else {
        None
    }
}

fn any_nul(b: &[u8]) -> (r: bool)
    ensures
        r == has_nul(b@),
{
    let mut i: usize = 0;
    while i < b.len()
        invariant
            0 <= i <= b@.len(),
            forall|j: int| 0 <= j < i ==> b@[j] != 0,
        decreases b.len() - i,
    {
        if b[i] == 0 {
            return true;
        }
        i = i + 1;
    }
    false
}

fn accept_exec(t: Vec<char>) -> (r: Option<String>)
    ensures
        r matches Some(s) ==> accept(t@) == Some(s@),
        r is None ==> accept(t@) is None,
{
    if is_text_like(&t) {
        Some(string_of(t.as_slice()))
    } else {
        None
    }
}

/// The text of a file's bytes: UTF-16 after a byte-order mark, UTF-16 guessed
/// from NUL parity when NULs occur, UTF-8 otherwise; `None` for binary or for
/// a decoding that does not look like text.
pub fn decode_text_bytes(b: &[u8]) -> (r: Option<String>)
    ensures
        r matches Some(s) ==> decode_text(b@) == Some(s@),
        r is None ==> decode_text(b@) is None,
{
    if b.len() >= 2 && b[0] == 0xFF && b[1] == 0xFE {
        accept_exec(decode_utf16(b, 2, true))
    } else if b.len() >= 2 && b[0] == 0xFE && b[1] == 0xFF {
        accept_exec(decode_utf16(b, 2, false))
    } else if any_nul(b) {
        match guess_utf16(b) {
            Some(le) => {
                let t = decode_utf16(b, 0, le);
                assert(b@.subrange(0, b@.len() as int) == b@);
                accept_exec(t)
            },
            None => None,
        }
    } else {
        match utf8_chars(b) {
            Some(t) => accept_exec(t),
            None => None,
        }
    }
}

/// The UTF-16 units of one character.
pub open spec fn char_units(c: char) -> Seq<int> {
    let v = c as u32 as int;
    if v < 0x10000 {
        seq![v]
    } else {
        seq![0xD800 + (v - 0x10000) / 1024, 0xDC00 + (v - 0x10000) % 1024]
    }
}

/// The UTF-16 units of a text.
pub open spec fn units_of(s: Seq<char>) -> Seq<int>
    decreases s.len(),
{
    if s.len() == 0 {
        Seq::empty()
    } else {
        char_units(s[0]) + units_of(s.subrange(1, s.len() as int))
    }
}

/// Little-endian bytes of 16-bit units.
pub open spec fn le_bytes(us: Seq<int>) -> Seq<u8> {
    Seq::new(
        2 * us.len(),
        |i: int|
            if i % 2 == 0 {
                (us[i / 2] % 256) as u8
            } else {
                (us[i / 2] / 256) as u8
            },
    )
}

/// A text as UTF-16LE with its byte-order mark.
pub open spec fn utf16le_bytes(s: Seq<char>) -> Seq<u8> {
    seq![0xFFu8, 0xFEu8] + le_bytes(units_of(s))
}

proof fn lemma_char_units(c: char)
    ensures
        forall|k: int| 0 <= k < char_units(c).len() ==> 0 <= #[trigger] char_units(c)[k] <= 0xFFFF,
        utf16_decode(char_units(c)) == seq![c],
{
    let v = c as u32 as int;
    lemma_scalar_char(c);
    if v >= 0x10000 {
        let hi = 0xD800 + (v - 0x10000) / 1024;
        let lo = 0xDC00 + (v - 0x10000) % 1024;
        assert(0x10000 + (hi - 0xD800) * 1024 + (lo - 0xDC00) == v);
        let us = char_units(c);
        assert(us.subrange(2, 2) == Seq::<int>::empty());
        assert(utf16_decode(Seq::<int>::empty()) == Seq::<char>::empty());
        assert(utf16_decode(us) == seq![scalar_char(v)] + utf16_decode(us.subrange(2, 2)));
    } else {
        let us = char_units(c);
        assert(us.subrange(1, 1) == Seq::<int>::empty());
        assert(utf16_decode(Seq::<int>::empty()) == Seq::<char>::empty());
    }
}

proof fn lemma_units_range(s: Seq<char>)
    ensures
        forall|k: int| 0 <= k < units_of(s).len() ==> 0 <= #[trigger] units_of(s)[k] <= 0xFFFF,
    decreases s.len(),
{
    if s.len() > 0 {
        lemma_char_units(s[0]);
        lemma_units_range(s.subrange(1, s.len() as int));
        let a = char_units(s[0]);
        let b = units_of(s.subrange(1, s.len() as int));
        assert forall|k: int| 0 <= k < units_of(s).len() implies 0 <= #[trigger] units_of(s)[k]
            <= 0xFFFF by {
            if k < a.len() {
                assert(units_of(s)[k] == a[k]);
            } else {
                assert(units_of(s)[k] == b[k - a.len()]);
            }
        }
    }
}

proof fn lemma_decode_units(s: Seq<char>)
    ensures
        utf16_decode(units_of(s)) == s,
    decreases s.len(),
{
    if s.len() == 0 {
        assert(units_of(s) == Seq::<int>::empty());
    } else {
        let c = s[0];
        let t = s.subrange(1, s.len() as int);
        lemma_decode_units(t);
        lemma_char_units(c);
        let a = char_units(c);
        let us = units_of(s);
        assert(us == a + units_of(t));
        let v = c as u32 as int;
        assert(us.subrange(a.len() as int, us.len() as int) == units_of(t));
        lemma_scalar_char(c);
        if v >= 0x10000 {
            assert(0x10000 + (a[0] - 0xD800) * 1024 + (a[1] - 0xDC00) == v);
            assert(utf16_decode(us) == seq![c] + utf16_decode(units_of(t)));
        } else {
            assert(utf16_decode(us) == seq![c] + utf16_decode(units_of(t)));
        }
        assert(seq![c] + t == s);
    }
}

/// Text encoded as UTF-16LE with a byte-order mark decodes back to itself,
/// whenever it looks like text.
pub proof fn lemma_utf16le_round_trip(s: Seq<char>)
    requires
        looks_like_text(s),
    ensures
        decode_text(utf16le_bytes(s)) == Some(s),
{
    let us = units_of(s);
    let b = utf16le_bytes(s);
    lemma_units_range(s);
    let body = b.subrange(2, b.len() as int);
    assert(body == le_bytes(us));
    assert(utf16_units(body, true) =~= us) by {
        assert forall|i: int| 0 <= i < us.len() implies utf16_units(body, true)[i] == us[i] by {
            let u = us[i];
            assert(0 <= u <= 0xFFFF);
            assert(body[2 * i] == (u % 256) as u8);
            assert(body[2 * i + 1] == (u / 256) as u8);
            assert((u % 256) + 256 * (u / 256) == u);
        }
    }
    lemma_decode_units(s);
}

proof fn lemma_le_bytes_concat(a: Seq<int>, b: Seq<int>)
    ensures
        le_bytes(a + b) == le_bytes(a) + le_bytes(b),
{
    let l = le_bytes(a + b);
    let r = le_bytes(a) + le_bytes(b);
    assert forall|i: int| 0 <= i < l.len() implies l[i] == r[i] by {
        if i < 2 * a.len() {
            assert((a + b)[i / 2] == a[i / 2]);
        } else {
            let j = i - 2 * a.len();
            assert(j / 2 == i / 2 - a.len());
            assert(j % 2 == i % 2);
            assert((a + b)[i / 2] == b[j / 2]);
        }
    }
    assert(l =~= r);
}

/// `text` as UTF-16LE bytes, byte-order mark first.
pub fn encode_utf16le(text: &str) -> (r: Vec<u8>)
    ensures
        r@ == utf16le_bytes(text@),
{
    let s = chars_of(text);
    let n = s.len();
    let mut out: Vec<u8> = Vec::new();
    out.push(0xFFu8);
    out.push(0xFEu8);
    let ghost whole = s@;
    let mut i: usize = 0;
    assert(whole.subrange(0, n as int) == whole);
    while i < n
        invariant
            whole == s@,
            n == whole.len(),
            0 <= i <= n,
            utf16le_bytes(whole) == out@ + le_bytes(units_of(whole.subrange(i as int, n as int))),
        decreases n - i,
    {
        let c = s[i];
        let v = c as u32;
        let ghost rest = whole.subrange(i as int, n as int);
        let ghost before = out@;
        assert(rest.subrange(1, rest.len() as int) == whole.subrange(i + 1, n as int));
        assert(units_of(rest) == char_units(c) + units_of(whole.subrange(i + 1, n as int)));
        proof {
            lemma_le_bytes_concat(char_units(c), units_of(whole.subrange(i + 1, n as int)));
        }
        if v < 0x10000 {
            out.push((v % 256) as u8);
            out.push((v / 256) as u8);
        } else {
            let hi = 0xD800 + (v - 0x10000) / 1024;
            let lo = 0xDC00 + (v - 0x10000) % 1024;
            out.push((hi % 256) as u8);
            out.push((hi / 256) as u8);
            out.push((lo % 256) as u8);
            out.push((lo / 256) as u8);
        }
        assert(out@ =~= before + le_bytes(char_units(c)));
        i = i + 1;
    }
    assert(whole.subrange(n as int, n as int) == Seq::<char>::empty());
    assert(units_of(Seq::<char>::empty()) == Seq::<int>::empty());
    assert(out@ =~= out@ + le_bytes(Seq::<int>::empty()));
    out
}

} // verus!
