//! The application's settings.
use vstd::prelude::*;

use crate::text::owned;

verus! {

/// The chain the application works on.
#[derive(Debug, Clone, Copy, PartialEq, Eq, Structural)]
pub enum AppMode {
    Eth,
    Btc,
    Bsc,
    Tron,
}

/// How blocks are synchronised.
#[derive(Debug, Clone, Copy, PartialEq, Eq, Structural)]
pub enum SyncMode {
    Backfill,
    Live,
    Auto,
}

/// Connection settings, starting blocks, batch sizes and limits.
#[derive(Debug, Clone)]
pub struct AppConfig {
    pub mode: AppMode,
    pub sync_mode: SyncMode,
    pub clickhouse_url: String,
    pub clickhouse_user: String,
    pub clickhouse_pass: String,
    pub clickhouse_db_eth: String,
    pub clickhouse_db_btc: String,
    pub clickhouse_db_bsc: String,
    pub clickhouse_db_tron: String,
    pub eth_rpc_url: Option<String>,
    pub bsc_rpc_url: Option<String>,
    pub btc_api_url: Option<String>,
    pub tron_rpc_url: Option<String>,
    pub tron_api_key: Option<String>,
    pub btc_start_block: u64,
    pub eth_start_block: u64,
    pub bsc_start_block: u64,
    pub tron_start_block: u64,
    pub total_btc_txs: u64,
    pub total_eth_txs: u64,
    pub total_bsc_txs: u64,
    pub total_tron_txs: u64,
    pub rpc_timeout_seconds: u64,
    pub rpc_max_concurrency: usize,
    pub tx_worker_concurrency: usize,
    pub neo4j_uri: String,
    pub neo4j_username: String,
    pub neo4j_password: String,
}

/// `o` holds a string with the characters `s`.
pub open spec fn holds(o: Option<String>, s: Seq<char>) -> bool {
    o matches Some(x) && x@ == s
}

impl AppConfig {
    /// The settings of a TRON backfill on local ClickHouse and Neo4j servers.
    pub fn from_env() -> (c: Self)
        ensures
            c.mode == AppMode::Tron,
            c.sync_mode == SyncMode::Backfill,
            c.clickhouse_url@ == "http://localhost:8123"@,
            c.clickhouse_user@ == "admin"@,
            c.clickhouse_pass@ == "mehran.admin"@,
            c.clickhouse_db_eth@ == "eth_db"@,
            c.clickhouse_db_btc@ == "btc_db"@,
            c.clickhouse_db_bsc@ == "bsc_db"@,
            c.clickhouse_db_tron@ == "tron_db"@,
            holds(
                c.eth_rpc_url,
                "https://rpc.ankr.com/eth/a4ce905377a7aa94ded62bf6efb50b20acde76159d163f8de77a16ec6237137b"@,
            ),
            holds(c.btc_api_url, "https://blockstream.info/api"@),
            holds(
                c.bsc_rpc_url,
                "https://rpc.ankr.com/bsc/a4ce905377a7aa94ded62bf6efb50b20acde76159d163f8de77a16ec6237137b"@,
            ),
            holds(c.tron_rpc_url, "https://api.trongrid.io"@),
            holds(c.tron_api_key, "c1e0a149-a5c9-4d3f-aa64-c08053e16be7"@),
            c.btc_start_block == 831000,
            c.eth_start_block == 90000,
            c.bsc_start_block == 15000000,
            c.tron_start_block == 55100000,
            c.total_btc_txs == 500,
            c.total_eth_txs == 500,
            c.total_bsc_txs == 500,
            c.total_tron_txs == 200,
            c.rpc_timeout_seconds == 120,
            c.rpc_max_concurrency == 2,
            c.tx_worker_concurrency == 2,
            c.neo4j_uri@ == "localhost:7687"@,
            c.neo4j_username@ == "neo4j"@,
            c.neo4j_password@ == "password"@,
    {
        AppConfig {
            mode: AppMode::Tron,
            sync_mode: SyncMode::Backfill,
            clickhouse_url: owned("http://localhost:8123"),
            clickhouse_user: owned("admin"),
            clickhouse_pass: owned("mehran.admin"),
            clickhouse_db_eth: owned("eth_db"),
            clickhouse_db_btc: owned("btc_db"),
            clickhouse_db_bsc: owned("bsc_db"),
            clickhouse_db_tron: owned("tron_db"),
            eth_rpc_url: Some(
                owned(
                    "https://rpc.ankr.com/eth/a4ce905377a7aa94ded62bf6efb50b20acde76159d163f8de77a16ec6237137b",
                ),
            ),
            bsc_rpc_url: Some(
                owned(
                    "https://rpc.ankr.com/bsc/a4ce905377a7aa94ded62bf6efb50b20acde76159d163f8de77a16ec6237137b",
                ),
            ),
            btc_api_url: Some(owned("https://blockstream.info/api")),
            tron_rpc_url: Some(owned("https://api.trongrid.io")),
            tron_api_key: Some(owned("c1e0a149-a5c9-4d3f-aa64-c08053e16be7")),
            btc_start_block: 831000,
            eth_start_block: 90000,
            bsc_start_block: 15000000,
            tron_start_block: 55100000,
            total_btc_txs: 500,
            total_eth_txs: 500,
            total_bsc_txs: 500,
            total_tron_txs: 200,
            rpc_timeout_seconds: 120,
            rpc_max_concurrency: 2,
            tx_worker_concurrency: 2,
            neo4j_uri: owned("localhost:7687"),
            neo4j_username: owned("neo4j"),
            neo4j_password: owned("password"),
        }
    }
}

} // verus!
