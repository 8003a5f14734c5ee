use vstd::prelude::*;

use crate::abr::ABRStrategy;

verus! {

/// Always asks for the same bitrate, whatever the network and the buffer do.
#[derive(Clone, Copy, Debug, PartialEq, Eq, Structural)]
pub struct FixedBitrate {
    pub bitrate_kbps: u32,
}

impl ABRStrategy for FixedBitrate {
    open spec fn inv(&self) -> bool {
        self.bitrate_kbps > 0
    }

    fn select_bitrate(&mut self, _bandwidth_kbps: u32, _buffer_level_ms: u64) -> (r: u32)
        ensures
            r == old(self).bitrate_kbps,
            *final(self) == *old(self),
    {
        self.bitrate_kbps
    }
}

} // verus!
