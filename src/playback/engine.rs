use vstd::prelude::*;

use crate::abr::{create_strategy, pick, valid_abr_type, ABRStrategy, FIXED_DEFAULT_KBPS};
use crate::models::{ABRType, SessionMetrics, SimError, SimulationConfig};

verus! {

/// The last bitrate the engine holds before the first segment. No strategy picks
/// it, so the first record is always a switch.
pub const NO_PREVIOUS_BITRATE: u32 = 0;

/// A configuration that a session can run with.
pub open spec fn valid_config(c: SimulationConfig) -> bool {
    &&& c.segment_duration_ms > 0
    &&& c.buffer_size_max_ms > 0
    &&& valid_abr_type(c.abr_type)
}

/// `i` is the position of the first zero sample of `trace`.
pub open spec fn is_first_zero(trace: Seq<u32>, i: int) -> bool {
    &&& 0 <= i < trace.len()
    &&& trace[i] == 0
    &&& forall|j: int| 0 <= j < i ==> trace[j] > 0
}

/// Every bandwidth sample is positive.
pub open spec fn all_positive(trace: Seq<u32>) -> bool {
    forall|j: int| 0 <= j < trace.len() ==> trace[j] > 0
}

/// Time to download a segment of `bitrate` kbps at `bandwidth` kbps, that is
/// `bitrate / bandwidth` seconds, in milliseconds rounded up.
pub open spec fn download_time_ms(bitrate: u32, bandwidth: u32) -> int
    recommends
        bandwidth > 0,
{
    (bitrate as int * 1000 + bandwidth as int - 1) / bandwidth as int
}

/// The buffer level after one segment, from the level `level` before it.
///
/// Below the stall threshold the segment counts as stalled: the buffer gains one
/// segment duration and nothing is played from it (no further penalty). Otherwise
/// it gains one segment duration less the download time, and is kept from going
/// below zero. Either way it is kept from going above the capacity.
pub open spec fn next_buffer_level(c: SimulationConfig, level: int, bitrate: u32, bandwidth: u32) -> int {
    let cap = c.buffer_size_max_ms as int;
    let seg = c.segment_duration_ms as int;
    if level < c.stall_threshold_ms {
        if level + seg > cap {
            cap
        } else {
            level + seg
        }
    } else {
        let v = level + seg - download_time_ms(bitrate, bandwidth);
        if v < 0 {
            0
        } else if v > cap {
            cap
        } else {
            v
        }
    }
}

/// The records of a session run with `c` over the samples `trace`, one per sample.
///
/// Each record is built from the one before it: its buffer level is where the
/// strategy reads the buffer, and its bitrate is what a switch is judged against.
pub open spec fn simulate(c: SimulationConfig, trace: Seq<u32>) -> Seq<SessionMetrics>
    decreases trace.len(),
{
    if trace.len() == 0 {
        Seq::empty()
    } else {
        let prev = simulate(c, trace.drop_last());
        let level = if prev.len() == 0 { 0 } else { prev.last().buffer_level_ms as int };
        let last = if prev.len() == 0 { NO_PREVIOUS_BITRATE } else { prev.last().bitrate_kbps };
        let b = pick(c.abr_type, trace, level);
        prev.push(
            SessionMetrics {
                timestamp: (trace.len() - 1) as u32,
                bitrate_kbps: b,
                buffer_level_ms: next_buffer_level(c, level, b, trace.last()) as u64,
                stalled: level < c.stall_threshold_ms,
                switch: b != last,
            },
        )
    }
}

/// A session yields one record per bandwidth sample.
pub proof fn lemma_simulate_len(c: SimulationConfig, trace: Seq<u32>)
    ensures
        simulate(c, trace).len() == trace.len(),
    decreases trace.len(),
{
    if trace.len() > 0 {
        lemma_simulate_len(c, trace.drop_last());
    }
}

/// Every record's buffer level lies within `[0, buffer capacity]`, whatever the
/// configuration, the strategy and the samples.
pub proof fn lemma_buffer_within_capacity(c: SimulationConfig, trace: Seq<u32>)
    ensures
        forall|i: int|
            0 <= i < simulate(c, trace).len() ==> #[trigger] simulate(c, trace)[i].buffer_level_ms
                <= c.buffer_size_max_ms,
    decreases trace.len(),
{
    if trace.len() > 0 {
        let prev = simulate(c, trace.drop_last());
        lemma_buffer_within_capacity(c, trace.drop_last());
        let level = if prev.len() == 0 { 0 } else { prev.last().buffer_level_ms as int };
        let b = pick(c.abr_type, trace, level);
        let v = next_buffer_level(c, level, b, trace.last());
        assert(0 <= v <= c.buffer_size_max_ms);
        assert(simulate(c, trace).last().buffer_level_ms == v);
        assert forall|i: int| 0 <= i < simulate(c, trace).len() implies #[trigger] simulate(c, trace)[i].buffer_level_ms
            <= c.buffer_size_max_ms by {
            if i < prev.len() {
                assert(simulate(c, trace)[i] == prev[i]);
            }
        }
    }
}

/// Every strategy picks a positive bitrate.
pub proof fn lemma_pick_positive(abr: ABRType, seen: Seq<u32>, level: int)
    ensures
        pick(abr, seen, level) > 0,
{
}

/// The first record is a switch exactly when its bitrate differs from
/// `NO_PREVIOUS_BITRATE`; as no strategy picks that value, it always is one.
pub proof fn lemma_first_record_switch(c: SimulationConfig, trace: Seq<u32>)
    requires
        trace.len() >= 1,
    ensures
        simulate(c, trace)[0].switch == (simulate(c, trace)[0].bitrate_kbps != NO_PREVIOUS_BITRATE),
        simulate(c, trace)[0].switch,
    decreases trace.len(),
{
    lemma_simulate_len(c, trace);
    lemma_simulate_len(c, trace.drop_last());
    if trace.len() > 1 {
        lemma_first_record_switch(c, trace.drop_last());
    } else {
        lemma_pick_positive(c.abr_type, trace, 0);
    }
}

/// With the fixed strategy every record has the same bitrate, whatever the
/// bandwidth and the buffer do.
pub proof fn lemma_fixed_bitrate_constant(c: SimulationConfig, trace: Seq<u32>)
    requires
        c.abr_type == ABRType::Fixed,
    ensures
        forall|i: int|
            0 <= i < simulate(c, trace).len() ==> #[trigger] simulate(c, trace)[i].bitrate_kbps
                == FIXED_DEFAULT_KBPS,
    decreases trace.len(),
{
    if trace.len() > 0 {
        let prev = simulate(c, trace.drop_last());
        lemma_fixed_bitrate_constant(c, trace.drop_last());
        assert forall|i: int| 0 <= i < simulate(c, trace).len() implies #[trigger] simulate(c, trace)[i].bitrate_kbps
            == FIXED_DEFAULT_KBPS by {
            if i < prev.len() {
                assert(simulate(c, trace)[i] == prev[i]);
            }
        }
    }
}

/// Runs one session with `config` over the bandwidth samples `trace` (kbps).
///
/// A configuration error is reported first (segment duration, then capacity,
/// then window size); then the first zero sample. Otherwise the records are
/// exactly `simulate(config, trace)`.
pub fn run_simulation(config: &SimulationConfig, trace: &Vec<u32>) -> (r: Result<Vec<SessionMetrics>, SimError>)
    requires
        trace.len() <= u32::MAX,
    ensures
        config.segment_duration_ms == 0 ==> r == Err::<Vec<SessionMetrics>, SimError>(SimError::InvalidSegmentDuration),
        config.segment_duration_ms > 0 && config.buffer_size_max_ms == 0
            ==> r == Err::<Vec<SessionMetrics>, SimError>(SimError::InvalidBufferCapacity),
        config.segment_duration_ms > 0 && config.buffer_size_max_ms > 0 && !valid_abr_type(config.abr_type)
            ==> r == Err::<Vec<SessionMetrics>, SimError>(SimError::InvalidWindowSize),
        valid_config(*config) && !all_positive(trace@) ==> exists|i: int|
            is_first_zero(trace@, i) && r == Err::<Vec<SessionMetrics>, SimError>(
                SimError::ZeroBandwidth { index: i as usize },
            ),
        valid_config(*config) && all_positive(trace@) ==> (r matches Ok(v) && v@ == simulate(*config, trace@)),
{
    if config.segment_duration_ms == 0 {
        return Err(SimError::InvalidSegmentDuration);
    }
    if config.buffer_size_max_ms == 0 {
        return Err(SimError::InvalidBufferCapacity);
    }
    match config.abr_type {
        ABRType::ThroughputBased { window_size } => {
            if window_size == 0 {
                return Err(SimError::InvalidWindowSize);
            }
        },
        _ => {},
    }
    let n = trace.len();
    let mut k: usize = 0;
    while k < n
        invariant
            n == trace.len(),
            k <= n,
            valid_config(*config),
            forall|j: int| 0 <= j < k ==> trace@[j] > 0,
        decreases n - k,
    {
        if trace[k] == 0 {
            assert(is_first_zero(trace@, k as int));
            return Err(SimError::ZeroBandwidth { index: k });
        }
        k = k + 1;
    }

    let c = *config;
    let cap = c.buffer_size_max_ms;
    let seg = c.segment_duration_ms;
    let mut abr = create_strategy(c.abr_type);
    let mut metrics: Vec<SessionMetrics> = Vec::new();
    let mut buffer_level: u64 = 0;
    let mut last_bitrate: u32 = NO_PREVIOUS_BITRATE;
    let mut i: usize = 0;
    assert(trace@.take(0) =~= Seq::<u32>::empty());
    while i < n
        invariant
            n == trace.len(),
            n <= u32::MAX,
            i <= n,
            c == *config,
            cap == c.buffer_size_max_ms,
            seg == c.segment_duration_ms,
            valid_config(c),
            all_positive(trace@),
            abr.inv(),
            abr.models(c.abr_type, trace@.take(i as int)),
            metrics@ == simulate(c, trace@.take(i as int)),
            metrics@.len() == i,
            buffer_level <= cap,
            buffer_level == (if i == 0 { 0 } else { metrics@.last().buffer_level_ms }),
            last_bitrate == (if i == 0 { NO_PREVIOUS_BITRATE } else { metrics@.last().bitrate_kbps }),
        decreases n - i,
    {
        let bandwidth = trace[i];
        let ghost seen = trace@.take(i as int + 1);
        proof {
            assert(trace@.take(i as int).push(bandwidth) =~= seen);
            assert(seen.drop_last() =~= trace@.take(i as int));
        }
        let ghost prev = metrics@;
        let ghost level = buffer_level as int;
        let ghost abr_before = abr;
        assert(abr_before.models(c.abr_type, trace@.take(i as int)));
        let bitrate = abr.select_bitrate(bandwidth, buffer_level);
        assert(bitrate == pick(c.abr_type, seen, level));
        let download_time: u64 = ((bitrate as u64) * 1000 + (bandwidth as u64) - 1) / (bandwidth as u64);
        assert(download_time as int == download_time_ms(bitrate, bandwidth));
        let switch = bitrate != last_bitrate;
        let stalled = buffer_level < c.stall_threshold_ms;
        let gained: u128 = buffer_level as u128 + seg as u128;
        if stalled {
            if gained > cap as u128 {
                buffer_level = cap;
            } else {
                buffer_level = gained as u64;
            }
        } else {
            if gained <= download_time as u128 {
                buffer_level = 0;
            } else if gained - (download_time as u128) > cap as u128 {
                buffer_level = cap;
            } else {
                buffer_level = (gained - download_time as u128) as u64;
            }
        }
        assert(buffer_level == next_buffer_level(c, level, bitrate, bandwidth));
        metrics.push(
            SessionMetrics {
                timestamp: i as u32,
                bitrate_kbps: bitrate,
                buffer_level_ms: buffer_level,
                stalled,
                switch,
            },
        );
        last_bitrate = bitrate;
        i = i + 1;
        proof {
            lemma_simulate_len(c, seen.drop_last());
            assert(simulate(c, seen.drop_last()) == prev);
            assert(metrics@ =~= simulate(c, seen));
        }
    }
    assert(trace@.take(n as int) =~= trace@);
    Ok(metrics)
}

} // verus!
