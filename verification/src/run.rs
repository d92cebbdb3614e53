//! Configuration and status of a run.
use crate::grid::Biome;
use crate::meta::OpusDifficulty;
use vstd::prelude::*;

verus! {

/// The settings of the current run.
pub struct RunConfig {
    pub biome: Biome,
    pub template_id: String,
    pub difficulty: OpusDifficulty,
    pub current_tick: u64,
    pub max_ticks: u64,
    pub tps: u32,
    pub sustain_window_ticks: u32,
    pub sample_interval_ticks: u32,
    pub abandoned: bool,
}

impl Default for RunConfig {
    /// A standard run: forest biome, medium opus, 108000 ticks (90 minutes at
    /// 20 ticks per second), a 600-tick sustain window sampled every 20 ticks.
    fn default() -> (c: Self)
        ensures
            c.biome == Biome::Forest,
            c.template_id@ == "standard"@,
            c.difficulty == OpusDifficulty::Medium,
            c.current_tick == 0,
            c.max_ticks == 108000,
            c.tps == 20,
            c.sustain_window_ticks == 600,
            c.sample_interval_ticks == 20,
            !c.abandoned,
    {
        RunConfig {
            biome: Biome::Forest,
            template_id: "standard".to_owned(),
            difficulty: OpusDifficulty::Medium,
            current_tick: 0,
            max_ticks: 108000,
            tps: 20,
            sustain_window_ticks: 600,
            sample_interval_ticks: 20,
            abandoned: false,
        }
    }
}

/// Where a run is in its life.
#[derive(Clone, Copy, Debug, PartialEq, Eq, Structural)]
pub enum RunStatus {
    InProgress,
    Won,
    TimedOut,
    Abandoned,
}


/// Whether every node of a non-empty opus main path is sustained, given each
/// node's sustained flag in path order.
pub fn all_sustained(sustained: &Vec<bool>) -> (b: bool)
    ensures
        b == (sustained@.len() > 0 && forall|i: int| 0 <= i < sustained@.len() ==> #[trigger] sustained@[i]),
{
    if sustained.len() == 0 {
        return false;
    }
    let mut i: usize = 0;
    while i < sustained.len()
        invariant
            i <= sustained@.len(),
            forall|j: int| 0 <= j < i ==> #[trigger] sustained@[j],
        decreases sustained@.len() - i,
    {
        if !sustained[i] {
            return false;
        }
        i = i + 1;
    }
    true
}

} // verus!
