//! A generic evolutionary-optimization engine: a population of candidate
//! subjects is scored, pruned, mutated, recombined, deduplicated and refilled
//! until a fitness target is reached or the best fitness leaves its range.
pub mod util;
pub mod ga;
