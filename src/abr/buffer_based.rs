use vstd::prelude::*;

use crate::abr::{buffer_tier, ABRStrategy};

verus! {

/// Picks the bitrate from the buffer level alone.
#[derive(Clone, Copy, Debug, PartialEq, Eq, Structural)]
pub struct BufferBased;

impl ABRStrategy for BufferBased {
    open spec fn inv(&self) -> bool {
        true
    }

    fn select_bitrate(&mut self, _bandwidth_kbps: u32, buffer_level_ms: u64) -> (r: u32)
        ensures
            r == buffer_tier(buffer_level_ms as int),
    {
        if buffer_level_ms >= 4000 {
            1500
        } else if buffer_level_ms >= 2000 {
            1000
        } else if buffer_level_ms >= 1000 {
            750
        } else {
            500
        }
    }
}

} // verus!
