use vstd::prelude::*;

verus! {

/// A segment of video: how long it plays and the bitrate it was encoded at.
#[derive(Clone, Copy, Debug, PartialEq, Eq, Structural)]
pub struct Segment {
    pub duration_ms: u64,
    pub bitrate_kbps: u32,
}

/// What the engine records for one simulated segment.
///
/// `timestamp` is the index of the segment, counted from zero. `buffer_level_ms`
/// is the playback buffer after the segment was added, in milliseconds and never
/// above the configured capacity. `switch` is set when the bitrate differs from the
/// previous record's (for the first record, from `NO_PREVIOUS_BITRATE`).
#[derive(Clone, Copy, Debug, PartialEq, Eq, Structural)]
pub struct SessionMetrics {
    pub timestamp: u32,
    pub bitrate_kbps: u32,
    pub buffer_level_ms: u64,
    pub stalled: bool,
    pub switch: bool,
}

/// Which bitrate strategy a session uses.
#[derive(Clone, Copy, Debug, Default, PartialEq, Eq, Structural)]
pub enum ABRType {
    #[default]
    Fixed,
    BufferBased,
    ThroughputBased { window_size: usize },
}

/// The configuration of one session. All durations are in milliseconds.
///
/// A usable configuration has a positive segment duration, a positive buffer
/// capacity and, for the throughput strategy, a window of at least one sample.
#[derive(Clone, Copy, Debug, PartialEq, Eq, Structural)]
pub struct SimulationConfig {
    pub abr_type: ABRType,
    pub buffer_size_max_ms: u64,
    pub segment_duration_ms: u64,
    pub stall_threshold_ms: u64,
}

impl Default for SimulationConfig {
    /// Fixed strategy, 10 s of buffer, 1 s segments, stall below 0.5 s.
    fn default() -> (r: Self)
        ensures
            r.abr_type == ABRType::Fixed,
            r.buffer_size_max_ms == 10_000,
            r.segment_duration_ms == 1_000,
            r.stall_threshold_ms == 500,
    {
        SimulationConfig {
            abr_type: ABRType::Fixed,
            buffer_size_max_ms: 10_000,
            segment_duration_ms: 1_000,
            stall_threshold_ms: 500,
        }
    }
}

/// The quality-of-experience summary of a non-empty record sequence.
///
/// The average bitrate is `total_bitrate_kbps / record_count` and the stall
/// ratio `stall_count / record_count`, both kept as exact fractions.
/// `final_score` is the score rounded to the nearest integer, halves upwards.
#[derive(Clone, Copy, Debug, PartialEq, Eq, Structural)]
pub struct QoEScore {
    pub record_count: u64,
    pub total_bitrate_kbps: u64,
    pub stall_count: u64,
    pub switch_count: u64,
    pub final_score: u64,
}

/// Why a session could not be simulated.
#[derive(Clone, Copy, Debug, PartialEq, Eq, Structural)]
pub enum SimError {
    /// The segment duration is zero.
    InvalidSegmentDuration,
    /// The buffer capacity is zero.
    InvalidBufferCapacity,
    /// The throughput strategy was given a window of zero samples.
    InvalidWindowSize,
    /// The bandwidth sample at `index` (the first such) is zero.
    ZeroBandwidth { index: usize },
}

} // verus!
