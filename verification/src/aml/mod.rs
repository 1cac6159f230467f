pub mod bridge_detector;
pub mod exposure;
pub mod flow_engine;
pub mod heuristics;
pub mod liquidity_detector;
pub mod mint_burn_detector;
pub mod swap_detector;
pub mod types;
