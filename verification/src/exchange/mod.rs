pub mod cluster_expander;
pub mod deposit_detector;
pub mod heuristics;
pub mod sweeper_detector;
pub mod types;
pub mod seeds;
pub mod detector;
