//! Transport between groups: rune paths for solids, pipes for liquids, and
//! their capacity and speed per tier.
use crate::fixed::Milli;
use vstd::prelude::*;

verus! {

/// Whether a transport channel carries solids (rune path) or liquids (pipe).
#[derive(Clone, Copy, Debug, PartialEq, Eq, Hash, Structural)]
pub enum TransportKind {
    RunePath,
    Pipe,
}

/// Capacity (items in flight) and speed (tiles per tick) of a path or pipe.
#[derive(Clone, Copy, Debug, PartialEq, Eq, Structural)]
pub struct TierStats {
    pub capacity: u32,
    pub speed: Milli,
}

/// The stats of a rune path of the given tier; tiers above 3 are tier 3.
pub open spec fn path_stats(tier: u8) -> TierStats {
    if tier == 1 {
        TierStats { capacity: 2, speed: Milli(1000) }
    } else if tier == 2 {
        TierStats { capacity: 5, speed: Milli(2000) }
    } else {
        TierStats { capacity: 10, speed: Milli(3000) }
    }
}

/// The stats of a pipe of the given tier; tiers above 3 are tier 3.
pub open spec fn pipe_stats(tier: u8) -> TierStats {
    if tier == 1 {
        TierStats { capacity: 3, speed: Milli(1500) }
    } else if tier == 2 {
        TierStats { capacity: 8, speed: Milli(3000) }
    } else {
        TierStats { capacity: 15, speed: Milli(4500) }
    }
}

impl TierStats {
    /// Rune path stats for a tier (tier 0 and tiers above 3 get tier-3 stats).
    pub fn for_path(tier: u8) -> (s: Self)
        ensures
            s == path_stats(tier),
    {
        match tier {
            1 => TierStats { capacity: 2, speed: Milli(1000) },
            2 => TierStats { capacity: 5, speed: Milli(2000) },
            3 => TierStats { capacity: 10, speed: Milli(3000) },
            _ => TierStats { capacity: 10, speed: Milli(3000) },
        }
    }

    /// Pipe stats for a tier (tier 0 and tiers above 3 get tier-3 stats).
    pub fn for_pipe(tier: u8) -> (s: Self)
        ensures
            s == pipe_stats(tier),
    {
        match tier {
            1 => TierStats { capacity: 3, speed: Milli(1500) },
            2 => TierStats { capacity: 8, speed: Milli(3000) },
            3 => TierStats { capacity: 15, speed: Milli(4500) },
            _ => TierStats { capacity: 15, speed: Milli(4500) },
        }
    }
}

/// Among tiers 1 to 3, a higher tier never lowers capacity or speed, for
/// paths and pipes alike, and at every tier a pipe outperforms a path.
pub proof fn lemma_tier_stats_ordered(t1: u8, t2: u8)
    requires
        1 <= t1 <= t2,
    ensures
        path_stats(t1).capacity <= path_stats(t2).capacity,
        path_stats(t1).speed.0 <= path_stats(t2).speed.0,
        pipe_stats(t1).capacity <= pipe_stats(t2).capacity,
        pipe_stats(t1).speed.0 <= pipe_stats(t2).speed.0,
        path_stats(t1).capacity < pipe_stats(t1).capacity,
        path_stats(t1).speed.0 < pipe_stats(t1).speed.0,
{
}

} // verus!
