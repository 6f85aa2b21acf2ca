//! Decay scoring. A rule of weight `w` that fired in `n` distinct files
//! deducts `w * (1 - 0.5^n) / (1 - 0.5) = 2w - w * 2^(1-n)`: the first file
//! costs the full weight and each further file half the previous increment.
//! The score is `max(0, round(100 - total))`, rounding halves upwards.
//!
//! Everything is computed exactly in integers: with `top` at least every
//! `n - 1`, the fractional part `Σ w * 2^(1-n)` is `tail_sum(.., top, 0) /
//! 2^top`.

use vstd::prelude::*;
use vstd::arithmetic::power2::*;
use vstd::arithmetic::div_mod::*;
use vstd::arithmetic::mul::*;

verus! {

/// `Σ w_i * 2^(top - (n_i - 1))` over the rules `i < k` that fired in at
/// least `e + 1` files.
pub open spec fn tail_sum(ws: Seq<u32>, ns: Seq<u32>, k: int, top: int, e: int) -> int
    decreases k,
{
    if k <= 0 {
        0
    } else {
        tail_sum(ws, ns, k - 1, top, e) + if ns[k - 1] >= 1 && ns[k - 1] - 1 >= e {
            ws[k - 1] * pow2((top - (ns[k - 1] - 1)) as nat)
        } else {
            0
        }
    }
}

/// `Σ w_i` over the rules `i < k` that fired in at least `e + 1` files.
pub open spec fn upper_weight(ws: Seq<u32>, ns: Seq<u32>, k: int, e: int) -> int
    decreases k,
{
    if k <= 0 {
        0
    } else {
        upper_weight(ws, ns, k - 1, e) + if ns[k - 1] >= 1 && ns[k - 1] - 1 >= e {
            ws[k - 1] as int
        } else {
            0
        }
    }
}

/// `Σ w_i` over the rules `i < k` that fired in exactly `e + 1` files.
pub open spec fn level_weight(ws: Seq<u32>, ns: Seq<u32>, k: int, e: int) -> int
    decreases k,
{
    if k <= 0 {
        0
    } else {
        level_weight(ws, ns, k - 1, e) + if ns[k - 1] >= 1 && ns[k - 1] - 1 == e {
            ws[k - 1] as int
        } else {
            0
        }
    }
}

/// The largest `n_i - 1` over the rules `i < k` that fired (0 if none did).
pub open spec fn max_level(ns: Seq<u32>, k: int) -> int
    decreases k,
{
    if k <= 0 {
        0
    } else {
        let m = max_level(ns, k - 1);
        if ns[k - 1] >= 1 && ns[k - 1] - 1 > m {
            ns[k - 1] - 1
        } else {
            m
        }
    }
}

/// The score computed with denominator `2^top`.
pub open spec fn score_at(ws: Seq<u32>, ns: Seq<u32>, top: int) -> int {
    let d = pow2(top as nat) as int;
    let w = upper_weight(ws, ns, ws.len() as int, 0);
    let x = (100 - 2 * w) * (2 * d) + 2 * tail_sum(ws, ns, ws.len() as int, top, 0) + d;
    let r = x / (2 * d);
    if r < 0 {
        0
    } else {
        r
    }
}

/// `max(0, round(100 - Σ_i w_i * (1 - 0.5^n_i) / 0.5))` for weights `ws` and
/// distinct-file counts `ns`.
pub open spec fn decay_score(ws: Seq<u32>, ns: Seq<u32>) -> int {
    score_at(ws, ns, max_level(ns, ns.len() as int))
}

/// Every level is at most `max_level`.
pub proof fn lemma_max_level_bounds(ns: Seq<u32>, k: int)
    requires
        0 <= k <= ns.len(),
    ensures
        max_level(ns, k) >= 0,
        forall|i: int| 0 <= i < k && ns[i] >= 1 ==> ns[i] - 1 <= max_level(ns, k),
    decreases k,
{
    if k > 0 {
        lemma_max_level_bounds(ns, k - 1);
    }
}

pub proof fn lemma_tail_sum_nonneg(ws: Seq<u32>, ns: Seq<u32>, k: int, top: int, e: int)
    requires
        0 <= k <= ws.len() == ns.len(),
    ensures
        tail_sum(ws, ns, k, top, e) >= 0,
    decreases k,
{
    if k > 0 {
        lemma_tail_sum_nonneg(ws, ns, k - 1, top, e);
        let p = pow2((top - (ns[k - 1] - 1)) as nat);
        assert(ws[k - 1] * p >= 0) by (nonlinear_arith)
            requires
                ws[k - 1] >= 0,
                p >= 0,
        ;
    }
}

/// Splitting off the rules at level `e` exactly.
pub proof fn lemma_tail_split(ws: Seq<u32>, ns: Seq<u32>, k: int, top: int, e: int)
    requires
        0 <= k <= ws.len() == ns.len(),
        0 <= e <= top,
        forall|i: int| 0 <= i < ws.len() && ns[i] >= 1 ==> ns[i] - 1 <= top,
    ensures
        tail_sum(ws, ns, k, top, e) == level_weight(ws, ns, k, e) * pow2((top - e) as nat)
            + tail_sum(ws, ns, k, top, e + 1),
        upper_weight(ws, ns, k, e) == level_weight(ws, ns, k, e) + upper_weight(ws, ns, k, e + 1),
    decreases k,
{
    if k > 0 {
        lemma_tail_split(ws, ns, k - 1, top, e);
        let p = pow2((top - e) as nat) as int;
        let l = level_weight(ws, ns, k - 1, e);
        if ns[k - 1] >= 1 && ns[k - 1] - 1 == e {
            assert((l + ws[k - 1]) * p == l * p + ws[k - 1] * p) by (nonlinear_arith);
        }
    }
}

/// Each term is at most its weight times `2^(top - e)`.
pub proof fn lemma_tail_bound(ws: Seq<u32>, ns: Seq<u32>, k: int, top: int, e: int)
    requires
        0 <= k <= ws.len() == ns.len(),
        0 <= e <= top,
        forall|i: int| 0 <= i < ws.len() && ns[i] >= 1 ==> ns[i] - 1 <= top,
    ensures
        tail_sum(ws, ns, k, top, e) <= upper_weight(ws, ns, k, e) * pow2((top - e) as nat),
    decreases k,
{
    if k > 0 {
        lemma_tail_bound(ws, ns, k - 1, top, e);
        let p = pow2((top - e) as nat) as int;
        let u = upper_weight(ws, ns, k - 1, e);
        if ns[k - 1] >= 1 && ns[k - 1] - 1 >= e {
            let q = pow2((top - (ns[k - 1] - 1)) as nat) as int;
            if top - (ns[k - 1] - 1) < top - e {
                lemma_pow2_strictly_increases(
                    (top - (ns[k - 1] - 1)) as nat,
                    (top - e) as nat,
                );
            }
            assert(ws[k - 1] * q <= ws[k - 1] * p) by (nonlinear_arith)
                requires
                    q <= p,
                    ws[k - 1] >= 0,
            ;
            assert((u + ws[k - 1]) * p == u * p + ws[k - 1] * p) by (nonlinear_arith);
        }
    }
}

/// No rule reaches a level above `top`.
pub proof fn lemma_tail_empty(ws: Seq<u32>, ns: Seq<u32>, k: int, top: int)
    requires
        0 <= k <= ws.len() == ns.len(),
        forall|i: int| 0 <= i < ws.len() && ns[i] >= 1 ==> ns[i] - 1 <= top,
    ensures
        tail_sum(ws, ns, k, top, top + 1) == 0,
        upper_weight(ws, ns, k, top + 1) == 0,
    decreases k,
{
    if k > 0 {
        lemma_tail_empty(ws, ns, k - 1, top);
    }
}

/// `(k * m + t) / m == k + t / m` for `m > 0`.
pub proof fn lemma_div_shift(k: int, t: int, m: int)
    requires
        m > 0,
    ensures
        (k * m + t) / m == k + t / m,
{
    lemma_fundamental_div_mod(t, m);
    let q = t / m;
    let r = t % m;
    lemma_mod_bound(t, m);
    assert(k * m + t == m * (k + q) + r) by (nonlinear_arith)
        requires
            t == m * q + r,
    ;
    lemma_fundamental_div_mod_converse(k * m + t, m, k + q, r);
}

/// Scaling numerator and denominator by two keeps the quotient.
pub proof fn lemma_div_double(x: int, d: int)
    requires
        d > 0,
    ensures
        (2 * x) / (2 * d) == x / d,
{
    lemma_fundamental_div_mod(x, d);
    lemma_mod_bound(x, d);
    let q = x / d;
    let r = x % d;
    assert(2 * x == (2 * d) * q + 2 * r) by (nonlinear_arith)
        requires
            x == d * q + r,
    ;
    lemma_fundamental_div_mod_converse(2 * x, 2 * d, q, 2 * r);
}

/// Raising the denominator's exponent doubles every term.
pub proof fn lemma_tail_rescale(ws: Seq<u32>, ns: Seq<u32>, k: int, top: int)
    requires
        0 <= k <= ws.len() == ns.len(),
        top >= 0,
        forall|i: int| 0 <= i < ws.len() && ns[i] >= 1 ==> ns[i] - 1 <= top,
    ensures
        tail_sum(ws, ns, k, top + 1, 0) == 2 * tail_sum(ws, ns, k, top, 0),
    decreases k,
{
    if k > 0 {
        lemma_tail_rescale(ws, ns, k - 1, top);
        if ns[k - 1] >= 1 {
            let l = (top - (ns[k - 1] - 1)) as nat;
            lemma_pow2_unfold(l + 1);
            assert((top + 1 - (ns[k - 1] - 1)) as nat == l + 1);
            assert(ws[k - 1] * pow2(l + 1) == 2 * (ws[k - 1] * pow2(l))) by (nonlinear_arith)
                requires
                    pow2(l + 1) == 2 * pow2(l),
            ;
        }
    }
}

/// The score does not depend on the denominator chosen, once it is fine
/// enough.
pub proof fn lemma_score_at_stable(ws: Seq<u32>, ns: Seq<u32>, t1: int, t2: int)
    requires
        ws.len() == ns.len(),
        0 <= t1 <= t2,
        forall|i: int| 0 <= i < ws.len() && ns[i] >= 1 ==> ns[i] - 1 <= t1,
    ensures
        score_at(ws, ns, t2) == score_at(ws, ns, t1),
    decreases t2 - t1,
{
    if t2 > t1 {
        lemma_score_at_stable(ws, ns, t1, t2 - 1);
        let n = ws.len() as int;
        let t = t2 - 1;
        lemma_tail_rescale(ws, ns, n, t);
        lemma_pow2_unfold((t + 1) as nat);
        assert((t + 1) as nat == t2 as nat);
        let d = pow2(t as nat) as int;
        let w = upper_weight(ws, ns, n, 0);
        let f = tail_sum(ws, ns, n, t, 0);
        let x = (100 - 2 * w) * (2 * d) + 2 * f + d;
        let x2 = (100 - 2 * w) * (2 * (2 * d)) + 2 * (2 * f) + 2 * d;
        assert(x2 == 2 * x) by (nonlinear_arith)
            requires
                x == (100 - 2 * w) * (2 * d) + 2 * f + d,
                x2 == (100 - 2 * w) * (2 * (2 * d)) + 2 * (2 * f) + 2 * d,
        ;
        lemma_pow2_pos(t as nat);
        lemma_div_double(x, 2 * d);
    }
}

/// The score always lies in `[0, 100]`.
pub proof fn lemma_score_in_range(ws: Seq<u32>, ns: Seq<u32>)
    requires
        ws.len() == ns.len(),
    ensures
        0 <= decay_score(ws, ns) <= 100,
{
    let n = ws.len() as int;
    let top = max_level(ns, n);
    lemma_max_level_bounds(ns, n);
    lemma_tail_bound(ws, ns, n, top, 0);
    let d = pow2(top as nat) as int;
    lemma_pow2_pos(top as nat);
    let w = upper_weight(ws, ns, n, 0);
    let f = tail_sum(ws, ns, n, top, 0);
    assert(w >= 0) by {
        lemma_upper_weight_nonneg(ws, ns, n, 0);
    }
    let x = (100 - 2 * w) * (2 * d) + 2 * f + d;
    assert(x < 101 * (2 * d)) by (nonlinear_arith)
        requires
            f <= w * d,
            x == (100 - 2 * w) * (2 * d) + 2 * f + d,
            d > 0,
            w >= 0,
    ;
    lemma_fundamental_div_mod(x, 2 * d);
    lemma_mod_bound(x, 2 * d);
    assert(x / (2 * d) <= 100) by (nonlinear_arith)
        requires
            x == (2 * d) * (x / (2 * d)) + x % (2 * d),
            0 <= x % (2 * d),
            x < 101 * (2 * d),
            d > 0,
    ;
}

pub proof fn lemma_upper_weight_nonneg(ws: Seq<u32>, ns: Seq<u32>, k: int, e: int)
    requires
        0 <= k <= ws.len() == ns.len(),
    ensures
        upper_weight(ws, ns, k, e) >= 0,
    decreases k,
{
    if k > 0 {
        lemma_upper_weight_nonneg(ws, ns, k - 1, e);
    }
}


/// A rule that fires in one more distinct file never raises the score.
pub proof fn lemma_more_files_never_raise_score(ws: Seq<u32>, ns: Seq<u32>, j: int)
    requires
        ws.len() == ns.len(),
        0 <= j < ns.len(),
        1 <= ns[j] < u32::MAX,
    ensures
        decay_score(ws, ns.update(j, (ns[j] + 1) as u32)) <= decay_score(ws, ns),
{
    let n = ws.len() as int;
    let ns2 = ns.update(j, (ns[j] + 1) as u32);
    let t1 = max_level(ns, n);
    let t2 = max_level(ns2, n);
    lemma_max_level_bounds(ns, n);
    lemma_max_level_bounds(ns2, n);
    let t = if t1 >= t2 { t1 } else { t2 };
    assert forall|i: int| 0 <= i < ws.len() && ns[i] >= 1 implies ns[i] - 1 <= t by {}
    assert forall|i: int| 0 <= i < ws.len() && ns2[i] >= 1 implies ns2[i] - 1 <= t by {}
    lemma_score_at_stable(ws, ns, t1, t);
    lemma_score_at_stable(ws, ns2, t2, t);
    assert(ns2[j] - 1 <= t);
    lemma_update_sums(ws, ns, j, n, t);
    let d = pow2(t as nat) as int;
    lemma_pow2_pos(t as nat);
    let w = upper_weight(ws, ns, n, 0);
    let x1 = (100 - 2 * w) * (2 * d) + 2 * tail_sum(ws, ns, n, t, 0) + d;
    let x2 = (100 - 2 * w) * (2 * d) + 2 * tail_sum(ws, ns2, n, t, 0) + d;
    lemma_div_is_ordered(x2, x1, 2 * d);
}

/// Moving rule `j` one level up keeps the fired weight and lowers the
/// fractional sum.
pub proof fn lemma_update_sums(ws: Seq<u32>, ns: Seq<u32>, j: int, k: int, t: int)
    requires
        ws.len() == ns.len(),
        0 <= j < ns.len(),
        1 <= ns[j] < u32::MAX,
        0 <= k <= ns.len(),
        ns[j] <= t,
    ensures
        upper_weight(ws, ns.update(j, (ns[j] + 1) as u32), k, 0) == upper_weight(ws, ns, k, 0),
        tail_sum(ws, ns.update(j, (ns[j] + 1) as u32), k, t, 0) <= tail_sum(ws, ns, k, t, 0),
    decreases k,
{
    if k > 0 {
        lemma_update_sums(ws, ns, j, k - 1, t);
        if k - 1 == j {
            let lo = (t - ns[j]) as nat;
            lemma_pow2_unfold(lo + 1);
            assert((t - (ns[j] - 1)) as nat == lo + 1);
            assert(ws[j] * pow2(lo) <= ws[j] * pow2(lo + 1)) by (nonlinear_arith)
                requires
                    pow2(lo + 1) == 2 * pow2(lo),
                    ws[j] >= 0,
            ;
        }
    }
}

/// Weight of the rules `i < k` at level `e` exactly.
fn level_weight_exec(ws: &Vec<u32>, ns: &Vec<u32>, e: u64) -> (r: u128)
    requires
        ws.len() == ns.len(),
    ensures
        r as int == level_weight(ws@, ns@, ws@.len() as int, e as int),
        r as int <= ws@.len() * 4294967295,
{
    let mut sum: u128 = 0;
    let mut i: usize = 0;
    while i < ws.len()
        invariant
            ws.len() == ns.len(),
            0 <= i <= ws@.len(),
            sum as int == level_weight(ws@, ns@, i as int, e as int),
            sum as int <= i * 4294967295,
        decreases ws.len() - i,
    {
        if ns[i] >= 1 && (ns[i] - 1) as u64 == e {
            sum = sum + ws[i] as u128;
        }
        i = i + 1;
    }
    sum
}

/// Weight of all the rules that fired.
fn fired_weight_exec(ws: &Vec<u32>, ns: &Vec<u32>) -> (r: u128)
    requires
        ws.len() == ns.len(),
    ensures
        r as int == upper_weight(ws@, ns@, ws@.len() as int, 0),
        r as int <= ws@.len() * 4294967295,
{
    let mut sum: u128 = 0;
    let mut i: usize = 0;
    while i < ws.len()
        invariant
            ws.len() == ns.len(),
            0 <= i <= ws@.len(),
            sum as int == upper_weight(ws@, ns@, i as int, 0),
            sum as int <= i * 4294967295,
        decreases ws.len() - i,
    {
        if ns[i] >= 1 {
            sum = sum + ws[i] as u128;
        }
        i = i + 1;
    }
    sum
}

/// The decay score of rules with weights `ws` that fired in `ns[i]` distinct
/// files each.
pub fn decay_score_of(ws: &Vec<u32>, ns: &Vec<u32>) -> (r: i32)
    requires
        ws.len() == ns.len(),
    ensures
        r as int == decay_score(ws@, ns@),
        0 <= r <= 100,
{
    let n = ws.len();
    let ghost wv = ws@;
    let ghost nv = ns@;
    let mut top: u32 = 0;
    let mut i: usize = 0;
    while i < n
        invariant
            n == ws.len() == ns.len(),
            nv == ns@,
            0 <= i <= n,
            top as int == max_level(nv, i as int),
        decreases n - i,
    {
        if ns[i] >= 1 && ns[i] - 1 > top {
            top = ns[i] - 1;
        }
        i = i + 1;
    }
    proof {
        lemma_max_level_bounds(nv, n as int);
    }
    let w = fired_weight_exec(ws, ns);
    let c0 = level_weight_exec(ws, ns, 0);
    let ghost tp = top as int;
    let mut fv: u128 = 0;
    let mut e: u64 = top as u64 + 1;
    proof {
        lemma_tail_empty(wv, nv, n as int, tp);
    }
    while e > 1
        invariant
            n == ws.len() == ns.len(),
            wv == ws@,
            nv == ns@,
            tp == top as int,
            1 <= e <= tp + 1,
            forall|i: int| 0 <= i < wv.len() && nv[i] >= 1 ==> nv[i] - 1 <= tp,
            e == tp + 1 ==> fv == 0,
            e <= tp ==> fv as int == tail_sum(wv, nv, n as int, tp, e as int) / (pow2(
                (tp - e) as nat,
            ) as int),
            fv as int <= upper_weight(wv, nv, n as int, e as int),
        decreases e,
    {
        let l = e - 1;
        let c = level_weight_exec(ws, ns, l);
        proof {
            lemma_upper_weight_bound(wv, nv, n as int, e as int);
            lemma_tail_split(wv, nv, n as int, tp, l as int);
            lemma_tail_nonneg_at(wv, nv, n as int, tp, e as int);
            lemma_upper_weight_nonneg(wv, nv, n as int, e as int);
            let te = tail_sum(wv, nv, n as int, tp, e as int);
            let tl = tail_sum(wv, nv, n as int, tp, l as int);
            if e == tp + 1 {
                lemma_tail_empty(wv, nv, n as int, tp);
                assert(pow2(0) == 1) by {
                    lemma2_to64();
                }
                assert((tp - l) as nat == 0);
                assert(pow2((tp - l) as nat) == 1);
                assert(te == 0);
                assert(tl == c * 1 + 0);
                assert(tl == c);
                assert(tl / 1 == tl);
                assert(tl / (pow2((tp - l) as nat) as int) == c);
                assert(c + fv / 2 == c);
            } else {
                let q = pow2((tp - e) as nat) as int;
                lemma_pow2_unfold((tp - l) as nat);
                assert(((tp - l) - 1) as nat == (tp - e) as nat);
                lemma_pow2_pos((tp - e) as nat);
                lemma_div_shift(c as int, te, 2 * q);
                assert(tl == c * (2 * q) + te);
                lemma_div_denominator(te, q, 2);
                assert(q * 2 == 2 * q);
                assert(fv as int == te / q);
                assert(tl / (2 * q) == c + fv / 2);
                assert(pow2((tp - l) as nat) as int == 2 * q);
            }
        }
        fv = c + fv / 2;
        e = l;
    }
    proof {
        lemma_tail_split(wv, nv, n as int, tp, 0);
        lemma_tail_nonneg_at(wv, nv, n as int, tp, 1);
        lemma_pow2_pos(tp as nat);
    }
    let half: u128 = (2 * c0 + fv + 1) / 2;
    let raw: i128 = 100i128 - 2 * (w as i128) + half as i128;
    proof {
        let d = pow2(tp as nat) as int;
        let t0 = tail_sum(wv, nv, n as int, tp, 0);
        let t1 = tail_sum(wv, nv, n as int, tp, 1);
        let wi = w as int;
        let x = (100 - 2 * wi) * (2 * d) + 2 * t0 + d;
        assert(t0 == c0 * d + t1);
        assert(x == (100 - 2 * wi + c0) * (2 * d) + (2 * t1 + d)) by (nonlinear_arith)
            requires
                x == (100 - 2 * wi) * (2 * d) + 2 * t0 + d,
                t0 == c0 * d + t1,
        ;
        lemma_div_shift(100 - 2 * wi + c0, 2 * t1 + d, 2 * d);
        lemma_div_shift(c0 as int, fv + 1, 2);
        if tp == 0 {
            lemma_tail_empty(wv, nv, n as int, tp);
            assert(pow2(0) == 1) by {
                lemma2_to64();
            }
        } else {
            let p = pow2((tp - 1) as nat) as int;
            lemma_pow2_unfold(tp as nat);
            lemma_pow2_pos((tp - 1) as nat);
            assert(2 * t1 + d == 2 * (t1 + p));
            assert(2 * d == 2 * (2 * p));
            lemma_div_double(t1 + p, 2 * p);
            lemma_div_denominator(t1 + p, p, 2);
            assert(p * 2 == 2 * p);
            lemma_div_shift(1, t1, p);
            assert(1 * p + t1 == t1 + p);
        }
        assert(x / (2 * d) == raw);
    }
    if raw < 0 {
        0
    } else {
        proof {
            lemma_score_in_range(wv, nv);
        }
        raw as i32
    }
}

proof fn lemma_fired_weight_at_least(ws: Seq<u32>, ns: Seq<u32>, k: int, j: int)
    requires
        0 <= j < k <= ws.len() == ns.len(),
        ns[j] >= 1,
    ensures
        upper_weight(ws, ns, k, 0) >= ws[j],
    decreases k,
{
    lemma_upper_weight_nonneg(ws, ns, k - 1, 0);
    if j < k - 1 {
        lemma_fired_weight_at_least(ws, ns, k - 1, j);
    }
}

/// A rule that fired costs at least its full weight: the score is at most
/// `100 - w` (and never below 0).
pub proof fn lemma_fired_rule_costs_weight(ws: Seq<u32>, ns: Seq<u32>, j: int)
    requires
        ws.len() == ns.len(),
        0 <= j < ns.len(),
        ns[j] >= 1,
    ensures
        decay_score(ws, ns) <= if ws[j] <= 100 {
            100 - ws[j]
        } else {
            0
        },
{
    let n = ws.len() as int;
    let top = max_level(ns, n);
    lemma_max_level_bounds(ns, n);
    lemma_tail_bound(ws, ns, n, top, 0);
    lemma_fired_weight_at_least(ws, ns, n, j);
    let d = pow2(top as nat) as int;
    lemma_pow2_pos(top as nat);
    let w = upper_weight(ws, ns, n, 0);
    let f = tail_sum(ws, ns, n, top, 0);
    let x = (100 - 2 * w) * (2 * d) + 2 * f + d;
    assert(x < (101 - w) * (2 * d)) by (nonlinear_arith)
        requires
            f <= w * d,
            x == (100 - 2 * w) * (2 * d) + 2 * f + d,
            d > 0,
    ;
    lemma_fundamental_div_mod(x, 2 * d);
    lemma_mod_bound(x, 2 * d);
    assert(x / (2 * d) <= 100 - w) by (nonlinear_arith)
        requires
            x == (2 * d) * (x / (2 * d)) + x % (2 * d),
            0 <= x % (2 * d),
            x < (101 - w) * (2 * d),
            d > 0,
    ;
}

proof fn lemma_flat_levels(ws: Seq<u32>, ns: Seq<u32>, k: int)
    requires
        0 <= k <= ws.len() == ns.len(),
        forall|i: int| 0 <= i < ns.len() ==> ns[i] <= 1,
    ensures
        max_level(ns, k) == 0,
        tail_sum(ws, ns, k, 0, 0) == upper_weight(ws, ns, k, 0),
    decreases k,
{
    if k > 0 {
        lemma_flat_levels(ws, ns, k - 1);
        assert(pow2(0) == 1) by {
            lemma2_to64();
        }
    }
}

/// When every rule fired in at most one file, each costs exactly its weight:
/// the score is `max(0, 100 - Σ w)` over the rules that fired.
pub proof fn lemma_first_files_cost_weights(ws: Seq<u32>, ns: Seq<u32>)
    requires
        ws.len() == ns.len(),
        forall|i: int| 0 <= i < ns.len() ==> ns[i] <= 1,
    ensures
        decay_score(ws, ns) == if upper_weight(ws, ns, ws.len() as int, 0) <= 100 {
            100 - upper_weight(ws, ns, ws.len() as int, 0)
        } else {
            0
        },
{
    let n = ws.len() as int;
    lemma_flat_levels(ws, ns, n);
    assert(pow2(0) == 1) by {
        lemma2_to64();
    }
    let w = upper_weight(ws, ns, n, 0);
    let x = (100 - 2 * w) * (2 * 1) + 2 * w + 1;
    assert(x == (100 - w) * 2 + 1) by (nonlinear_arith)
        requires
            x == (100 - 2 * w) * (2 * 1) + 2 * w + 1,
    ;
    lemma_div_shift(100 - w, 1, 2);
    assert(score_at(ws, ns, 0) == if 100 - w < 0 {
        0
    } else {
        100 - w
    });
}

/// The fired weight when only rule `j` fired.
pub proof fn lemma_only_rule_fired(ws: Seq<u32>, ns: Seq<u32>, j: int, k: int)
    requires
        0 <= k <= ws.len() == ns.len(),
        0 <= j < ns.len(),
        ns[j] >= 1,
        forall|i: int| 0 <= i < ns.len() && i != j ==> ns[i] == 0,
    ensures
        upper_weight(ws, ns, k, 0) == if j < k {
            ws[j] as int
        } else {
            0
        },
    decreases k,
{
    if k > 0 {
        lemma_only_rule_fired(ws, ns, j, k - 1);
    }
}

pub proof fn lemma_upper_weight_bound(ws: Seq<u32>, ns: Seq<u32>, k: int, e: int)
    requires
        0 <= k <= ws.len() == ns.len(),
    ensures
        0 <= upper_weight(ws, ns, k, e) <= k * 4294967295,
    decreases k,
{
    if k > 0 {
        lemma_upper_weight_bound(ws, ns, k - 1, e);
    }
}

pub proof fn lemma_tail_nonneg_at(ws: Seq<u32>, ns: Seq<u32>, k: int, top: int, e: int)
    requires
        0 <= k <= ws.len() == ns.len(),
    ensures
        tail_sum(ws, ns, k, top, e) >= 0,
{
    lemma_tail_sum_nonneg(ws, ns, k, top, e);
}

} // verus!
