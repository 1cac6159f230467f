//! Analysis of TRON transfers for anti-money-laundering: net flows, swap,
//! bridge, liquidity and mint/burn detection, counterparty relations,
//! exchange wallet heuristics, and the text and graph helpers around them.
use vstd::prelude::*;

pub mod address_intelligence;
pub mod aml;
pub mod cli;
pub mod config;
pub mod counterparty;
pub mod db;
pub mod exchange;
pub mod exposure;
pub mod handlers;
pub mod models;
pub mod neo4j;
pub mod progress;
pub mod rpc;
pub mod text;

verus! {

} // verus!
