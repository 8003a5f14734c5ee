use vstd::prelude::*;

use crate::models::{QoEScore, SessionMetrics};

verus! {

/// The bitrate that the score takes as its reference maximum, in kbps.
pub const REFERENCE_BITRATE_KBPS: u64 = 2000;

/// The sum of the records' bitrates.
pub open spec fn total_bitrate(s: Seq<SessionMetrics>) -> int
    decreases s.len(),
{
    if s.len() == 0 {
        0
    } else {
        total_bitrate(s.drop_last()) + s.last().bitrate_kbps as int
    }
}

/// How many records are stalled.
pub open spec fn count_stalls(s: Seq<SessionMetrics>) -> int
    decreases s.len(),
{
    if s.len() == 0 {
        0
    } else {
        count_stalls(s.drop_last()) + if s.last().stalled { 1int } else { 0int }
    }
}

/// How many records are switches.
pub open spec fn count_switches(s: Seq<SessionMetrics>) -> int
    decreases s.len(),
{
    if s.len() == 0 {
        0
    } else {
        count_switches(s.drop_last()) + if s.last().switch { 1int } else { 0int }
    }
}

/// The switches that the score counts: never more than the records, so that the
/// switch ratio is at most one.
pub open spec fn capped_switches(switches: int, n: int) -> int {
    if switches > n {
        n
    } else {
        switches
    }
}

/// The final score of `n` records with bitrate sum `total`, `stalls` stalls and
/// `switches` switches:
/// `(total / n) / 2000 * (1 - stalls / n) * (1 - min(1, switches / n)) * 100`,
/// which is `num / den` below, rounded to the nearest integer with halves rounded
/// up (away from zero, as the value is never negative).
pub open spec fn score_of(total: int, n: int, stalls: int, switches: int) -> int {
    let num = total * (n - stalls) * (n - capped_switches(switches, n));
    let den = 20 * n * n * n;
    (2 * num + den) / (2 * den)
}

/// The switch ratio never exceeds one: the switches that the score counts are at
/// most the records, and beyond that boundary more switches lower the score no
/// further.
pub proof fn lemma_switch_ratio_capped(total: int, n: int, stalls: int, switches: int)
    requires
        n > 0,
    ensures
        capped_switches(switches, n) <= n,
        switches >= n ==> score_of(total, n, stalls, switches) == score_of(total, n, stalls, n),
{
}

/// Counts and sums fit the length of the sequence.
proof fn lemma_counts_bounded(s: Seq<SessionMetrics>)
    ensures
        0 <= count_stalls(s) <= s.len(),
        0 <= count_switches(s) <= s.len(),
        0 <= total_bitrate(s) <= s.len() * 0xFFFF_FFFF,
    decreases s.len(),
{
    if s.len() > 0 {
        lemma_counts_bounded(s.drop_last());
    }
}

/// The final score from the counts of a record sequence (see `score_of`).
pub fn qoe_final_score(total_bitrate_kbps: u64, record_count: u64, stall_count: u64, switch_count: u64) -> (r: u64)
    requires
        0 < record_count <= u32::MAX,
        stall_count <= record_count,
        total_bitrate_kbps <= record_count * 0xFFFF_FFFF,
    ensures
        r == score_of(total_bitrate_kbps as int, record_count as int, stall_count as int, switch_count as int),
{
    let n = record_count as u128;
    let sw: u128 = if switch_count as u128 > n { n } else { switch_count as u128 };
    let t = total_bitrate_kbps as u128;
    let st = stall_count as u128;
    assert(t * (n - st) <= (n * 0xFFFF_FFFF) * n) by (nonlinear_arith)
        requires t <= n * 0xFFFF_FFFF, st <= n, n <= 0xFFFF_FFFF;
    assert((n * 0xFFFF_FFFF) * n <= 0xFFFF_FFFF_u128 * 0xFFFF_FFFF * 0xFFFF_FFFF) by (nonlinear_arith)
        requires n <= 0xFFFF_FFFF;
    let a = t * (n - st);
    assert(a * (n - sw) <= ((n * 0xFFFF_FFFF) * n) * n) by (nonlinear_arith)
        requires a <= (n * 0xFFFF_FFFF) * n, sw <= n, 0 <= a;
    assert(((n * 0xFFFF_FFFF) * n) * n <= 0xFFFF_FFFF_u128 * 0xFFFF_FFFF * 0xFFFF_FFFF * 0xFFFF_FFFF) by (nonlinear_arith)
        requires n <= 0xFFFF_FFFF;
    let num = a * (n - sw);
    assert(n * n <= 0xFFFF_FFFF_u128 * 0xFFFF_FFFF) by (nonlinear_arith)
        requires n <= 0xFFFF_FFFF;
    assert(n * n * n <= 0xFFFF_FFFF_u128 * 0xFFFF_FFFF * 0xFFFF_FFFF) by (nonlinear_arith)
        requires n <= 0xFFFF_FFFF;
    let n3 = n * n * n;
    let den = 20 * n3;
    assert(den > 0) by (nonlinear_arith)
        requires n > 0, den == 20 * n3, n3 == n * n * n;
    let q = num / den;
    let rem = num % den;
    proof {
        // num < den * 2^32, so the quotient fits in 32 bits.
        assert(num <= (n * n * n) * 0xFFFF_FFFF) by (nonlinear_arith)
            requires num <= ((n * 0xFFFF_FFFF) * n) * n;
        assert(num < den * 0x1_0000_0000) by (nonlinear_arith)
            requires num <= (n * n * n) * 0xFFFF_FFFF, den == 20 * n3, n3 == n * n * n, n > 0;
        assert(q < 0x1_0000_0000) by (nonlinear_arith)
            requires num < den * 0x1_0000_0000, den > 0, q == num / den, num >= 0;
        assert(num == q * den + rem && 0 <= rem < den) by (nonlinear_arith)
            requires den > 0, q == num / den, rem == num % den, num >= 0;
        // (2 num + den) / (2 den) is q, plus one where the remainder is half of den or more.
        let x = 2 * num + den;
        let d2 = 2 * den;
        let extra: int = if 2 * rem >= den { 1 } else { 0 };
        assert(x == (q + extra) * d2 + (2 * rem + den - extra * d2)) by (nonlinear_arith)
            requires x == 2 * num + den, d2 == 2 * den, num == q * den + rem;
        vstd::arithmetic::div_mod::lemma_fundamental_div_mod_converse(
            x as int,
            d2 as int,
            (q + extra) as int,
            (2 * rem + den - extra * d2) as int,
        );
        let ni = record_count as int;
        assert(den == 20 * ni * ni * ni) by (nonlinear_arith)
            requires den == 20 * n3, n3 == n * n * n, ni == n;
        assert(sw == capped_switches(switch_count as int, ni));
        assert(num == (total_bitrate_kbps as int) * (ni - stall_count as int) * (ni - sw)) by (nonlinear_arith)
            requires num == a * (n - sw), a == t * (n - st), t == total_bitrate_kbps, st == stall_count, ni == n;
    }
    if 2 * rem >= den {
        (q + 1) as u64
    } else {
        q as u64
    }
}

/// Scores a whole session: `None` for an empty sequence, otherwise its counts and
/// the final score that `score_of` gives for them.
pub fn evaluate_qoe(metrics: &[SessionMetrics]) -> (r: Option<QoEScore>)
    requires
        metrics@.len() <= u32::MAX,
    ensures
        r is None <==> metrics@.len() == 0,
        r matches Some(q) ==> {
            &&& q.record_count == metrics@.len()
            &&& q.total_bitrate_kbps == total_bitrate(metrics@)
            &&& q.stall_count == count_stalls(metrics@)
            &&& q.switch_count == count_switches(metrics@)
            &&& q.final_score == score_of(
                total_bitrate(metrics@),
                metrics@.len() as int,
                count_stalls(metrics@),
                count_switches(metrics@),
            )
        },
{
    let n = metrics.len();
    if n == 0 {
        return None;
    }
    let mut total: u64 = 0;
    let mut stalls: u64 = 0;
    let mut switches: u64 = 0;
    let mut i: usize = 0;
    while i < n
        invariant
            n == metrics@.len(),
            n <= u32::MAX,
            i <= n,
            total == total_bitrate(metrics@.take(i as int)),
            stalls == count_stalls(metrics@.take(i as int)),
            switches == count_switches(metrics@.take(i as int)),
        decreases n - i,
    {
        proof {
            let s = metrics@.take(i as int + 1);
            assert(s.drop_last() =~= metrics@.take(i as int));
            lemma_counts_bounded(s);
            assert(s.len() * 0xFFFF_FFFF <= 0xFFFF_FFFF * 0xFFFF_FFFF) by (nonlinear_arith)
                requires s.len() <= 0xFFFF_FFFF;
        }
        total = total + metrics[i].bitrate_kbps as u64;
        if metrics[i].stalled {
            stalls = stalls + 1;
        }
        if metrics[i].switch {
            switches = switches + 1;
        }
        i = i + 1;
    }
    proof {
        assert(metrics@.take(n as int) =~= metrics@);
        lemma_counts_bounded(metrics@);
    }
    let final_score = qoe_final_score(total, n as u64, stalls, switches);
    Some(QoEScore {
        record_count: n as u64,
        total_bitrate_kbps: total,
        stall_count: stalls,
        switch_count: switches,
        final_score,
    })
}

} // verus!
