use vstd::prelude::*;

pub mod buffer_based;
pub mod fixed;
pub mod throughput_based;

use crate::abr::buffer_based::BufferBased;
use crate::abr::fixed::FixedBitrate;
use crate::abr::throughput_based::ThroughputBased;
use crate::models::ABRType;

verus! {

/// Bitrate of the fixed strategy when it is built from an `ABRType`.
pub const FIXED_DEFAULT_KBPS: u32 = 1000;

/// The buffer-based step function: the tier whose lower bound (inclusive) the
/// buffer level reaches, from 4 s down to 1 s.
pub open spec fn buffer_tier(buffer_level_ms: int) -> u32 {
    if buffer_level_ms >= 4000 {
        1500
    } else if buffer_level_ms >= 2000 {
        1000
    } else if buffer_level_ms >= 1000 {
        750
    } else {
        500
    }
}

/// The sum of a sequence of samples.
pub open spec fn seq_sum(s: Seq<u32>) -> int
    decreases s.len(),
{
    if s.len() == 0 {
        0
    } else {
        seq_sum(s.drop_last()) + s.last() as int
    }
}

/// The last `n` elements of `s` (all of `s` when it is shorter).
pub open spec fn last_n(s: Seq<u32>, n: nat) -> Seq<u32> {
    if s.len() <= n {
        s
    } else {
        s.subrange(s.len() - n, s.len() as int)
    }
}

/// The throughput tier of a non-empty window: the mean `seq_sum(w) / w.len()`
/// compared with 1800, 1200 and 800 kbps, lower bounds inclusive. The comparison
/// is made exactly, as `sum >= bound * len`.
pub open spec fn throughput_tier(w: Seq<u32>) -> u32 {
    let sum = seq_sum(w);
    let len = w.len() as int;
    if sum >= 1800 * len {
        2000
    } else if sum >= 1200 * len {
        1500
    } else if sum >= 800 * len {
        1000
    } else {
        500
    }
}

/// An `ABRType` that a strategy can be built from: a throughput window holds at
/// least one sample.
pub open spec fn valid_abr_type(abr: ABRType) -> bool {
    match abr {
        ABRType::ThroughputBased { window_size } => window_size >= 1,
        _ => true,
    }
}

/// The bitrate that the strategy built from `abr` picks when it has been fed the
/// bandwidth samples `seen` (the current one last) and the buffer holds
/// `buffer_level_ms`.
pub open spec fn pick(abr: ABRType, seen: Seq<u32>, buffer_level_ms: int) -> u32 {
    match abr {
        ABRType::Fixed => FIXED_DEFAULT_KBPS,
        ABRType::BufferBased => buffer_tier(buffer_level_ms),
        ABRType::ThroughputBased { window_size } => throughput_tier(
            last_n(seen, window_size as nat),
        ),
    }
}

/// A bitrate selection policy, called once per segment in order.
pub trait ABRStrategy {
    /// The strategy's own state is well formed.
    spec fn inv(&self) -> bool;

    /// Picks the bitrate (kbps, positive) of the next segment from the bandwidth
    /// observed for it and the current buffer level.
    fn select_bitrate(&mut self, bandwidth_kbps: u32, buffer_level_ms: u64) -> (r: u32)
        requires
            old(self).inv(),
        ensures
            final(self).inv(),
            r > 0,
    ;
}

/// One of the three strategies, chosen when a session is configured.
pub enum Strategy {
    Fixed(FixedBitrate),
    BufferBased(BufferBased),
    ThroughputBased(ThroughputBased),
}

impl Strategy {
    /// This strategy is the one built from `abr` after it was fed the samples `seen`.
    pub open spec fn models(&self, abr: ABRType, seen: Seq<u32>) -> bool {
        match self {
            Strategy::Fixed(f) => abr == ABRType::Fixed && f.bitrate_kbps == FIXED_DEFAULT_KBPS,
            Strategy::BufferBased(_) => abr == ABRType::BufferBased,
            Strategy::ThroughputBased(t) => {
                &&& abr == (ABRType::ThroughputBased { window_size: t.window_size })
                &&& t.inv()
                &&& t.history@ == last_n(seen, t.window_size as nat)
            },
        }
    }
}

/// Taking the last `n` after dropping all but the last `n` changes nothing.
proof fn lemma_last_n_push(s: Seq<u32>, x: u32, n: nat)
    requires
        n >= 1,
    ensures
        last_n(last_n(s, n).push(x), n) == last_n(s.push(x), n),
{
    if s.len() > n {
        assert(last_n(last_n(s, n).push(x), n) =~= last_n(s.push(x), n));
    }
}

impl ABRStrategy for Strategy {
    open spec fn inv(&self) -> bool {
        match self {
            Strategy::Fixed(f) => f.inv(),
            Strategy::BufferBased(b) => b.inv(),
            Strategy::ThroughputBased(t) => t.inv(),
        }
    }

    fn select_bitrate(&mut self, bandwidth_kbps: u32, buffer_level_ms: u64) -> (r: u32)
        ensures
            forall|abr: ABRType, seen: Seq<u32>|
                #[trigger] old(self).models(abr, seen) ==> {
                    &&& final(self).models(abr, seen.push(bandwidth_kbps))
                    &&& r == pick(abr, seen.push(bandwidth_kbps), buffer_level_ms as int)
                },
    {
        match self {
            Strategy::Fixed(f) => f.select_bitrate(bandwidth_kbps, buffer_level_ms),
            Strategy::BufferBased(b) => b.select_bitrate(bandwidth_kbps, buffer_level_ms),
            Strategy::ThroughputBased(t) => {
                let ghost pre = *t;
                let r = t.select_bitrate(bandwidth_kbps, buffer_level_ms);
                proof {
                    assert forall|abr: ABRType, seen: Seq<u32>|
                        Strategy::ThroughputBased(pre).models(abr, seen) implies {
                            &&& Strategy::ThroughputBased(*t).models(abr, seen.push(bandwidth_kbps))
                            &&& r == pick(abr, seen.push(bandwidth_kbps), buffer_level_ms as int)
                        } by {
                        lemma_last_n_push(seen, bandwidth_kbps, pre.window_size as nat);
                    }
                }
                r
            },
        }
    }
}

/// The strategy that a numeric selector names: 0 fixed, 1 buffer-based, 2
/// throughput-based with `window_size` samples. Any other selector gives the fixed
/// strategy.
pub fn abr_type_from_selector(selector: u32, window_size: u32) -> (r: ABRType)
    ensures
        selector == 1 ==> r == ABRType::BufferBased,
        selector == 2 ==> r == (ABRType::ThroughputBased { window_size: window_size as usize }),
        selector != 1 && selector != 2 ==> r == ABRType::Fixed,
{
    match selector {
        0 => ABRType::Fixed,
        1 => ABRType::BufferBased,
        2 => ABRType::ThroughputBased { window_size: window_size as usize },
        _ => ABRType::Fixed,
    }
}

/// Builds the strategy that `abr_type` names, in its initial state.
pub fn create_strategy(abr_type: ABRType) -> (r: Strategy)
    requires
        valid_abr_type(abr_type),
    ensures
        r.inv(),
        r.models(abr_type, Seq::empty()),
{
    match abr_type {
        ABRType::Fixed => Strategy::Fixed(FixedBitrate { bitrate_kbps: FIXED_DEFAULT_KBPS }),
        ABRType::BufferBased => Strategy::BufferBased(BufferBased),
        ABRType::ThroughputBased { window_size } => {
            let t = ThroughputBased::new(window_size);
            proof {
                assert(last_n(Seq::<u32>::empty(), window_size as nat) =~= t.history@);
            }
            Strategy::ThroughputBased(t)
        },
    }
}

} // verus!
