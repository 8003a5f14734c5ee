use vstd::prelude::*;

use crate::abr::{last_n, seq_sum, throughput_tier, ABRStrategy};

verus! {

/// Picks the bitrate from the mean of the last `window_size` bandwidth samples.
///
/// `history` holds those samples, oldest first.
pub struct ThroughputBased {
    pub window_size: usize,
    pub history: Vec<u32>,
}

impl ThroughputBased {
    /// A strategy with an empty history.
    pub fn new(window_size: usize) -> (r: Self)
        requires
            window_size >= 1,
        ensures
            r.window_size == window_size,
            r.history@ == Seq::<u32>::empty(),
            r.inv(),
    {
        ThroughputBased { window_size, history: Vec::new() }
    }
}

/// The sum of samples fits the bound that their count gives it.
proof fn lemma_seq_sum_bound(s: Seq<u32>)
    ensures
        0 <= seq_sum(s) <= s.len() * 0xFFFF_FFFF,
    decreases s.len(),
{
    if s.len() > 0 {
        lemma_seq_sum_bound(s.drop_last());
    }
}

impl ABRStrategy for ThroughputBased {
    open spec fn inv(&self) -> bool {
        1 <= self.window_size && self.history.len() <= self.window_size
    }

    fn select_bitrate(&mut self, bandwidth_kbps: u32, _buffer_level_ms: u64) -> (r: u32)
        ensures
            final(self).window_size == old(self).window_size,
            final(self).history@ == last_n(old(self).history@.push(bandwidth_kbps), old(self).window_size as nat),
            final(self).history@.len() <= old(self).window_size,
            r == throughput_tier(final(self).history@),
    {
        let ghost pushed = self.history@.push(bandwidth_kbps);
        self.history.push(bandwidth_kbps);
        if self.history.len() > self.window_size {
            self.history.remove(0);
            assert(self.history@ =~= last_n(pushed, self.window_size as nat));
        }
        let n = self.history.len();
        let mut sum: u128 = 0;
        let mut i: usize = 0;
        while i < n
            invariant
                n == self.history.len(),
                i <= n,
                sum == seq_sum(self.history@.take(i as int)),
            decreases n - i,
        {
            proof {
                let t = self.history@.take(i as int + 1);
                assert(t.drop_last() =~= self.history@.take(i as int));
                lemma_seq_sum_bound(t);
            }
            sum = sum + self.history[i] as u128;
            i = i + 1;
        }
        assert(self.history@.take(n as int) =~= self.history@);
        let len = n as u128;
        if sum >= 1800 * len {
            2000
        } else if sum >= 1200 * len {
            1500
        } else if sum >= 800 * len {
            1000
        } else {
            500
        }
    }
}

} // verus!
