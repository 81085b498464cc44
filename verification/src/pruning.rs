//! Retention window for pruning old events.
use vstd::prelude::*;

verus! {

/// How far back events and state versions are retained.
#[derive(Clone)]
pub struct PruningConfig {
    /// Retains events inserted within this many blocks of the current block.
    pub prune_n_blocks_away: u64,
    /// How often stale data gets pruned, in seconds.
    pub prune_interval: u64,
}

impl Default for PruningConfig {
    fn default() -> (config: Self)
        ensures
            config.prune_n_blocks_away == 30_000,
            config.prune_interval == 2_592_000,
    {
        Self { prune_n_blocks_away: 30 * 1_000, prune_interval: 30 * 24 * 60 * 60 }
    }
}

impl PruningConfig {
    /// The lowest block number that is kept: the last `prune_n_blocks_away` blocks
    /// are retained, so a chain shorter than the window keeps everything (block 0).
    pub fn get_min_block_number(&self, current_block_number: u64) -> (min_block_number: u64)
        ensures
            min_block_number == if current_block_number < self.prune_n_blocks_away {
                0
            } else {
                current_block_number - self.prune_n_blocks_away
            },
            min_block_number <= current_block_number,
    {
        current_block_number.saturating_sub(self.prune_n_blocks_away)
    }
}

} // verus!
