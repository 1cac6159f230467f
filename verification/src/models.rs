//! The rows stored in the TRON ClickHouse tables, and the tables that batches
//! of them go to.
use vstd::prelude::*;

verus! {

/// The transfers between an address and one counterparty in one token and
/// one direction.
#[derive(Debug, Clone)]
pub struct CounterpartyRow {
    pub address: String,
    pub counterparty: String,
    pub direction: String,
    pub token_address: String,
    pub total_txs: u64,
    pub total_volume: u128,
    pub first_seen: u64,
    pub last_seen: u64,
}

/// An address known to be risky, from which exposure is traced.
#[derive(Debug, Clone)]
pub struct ExposureSeedRow {
    pub address: String,
    pub entity_name: String,
    pub entity_type: String,
    pub risk_level: u8,
    pub source: String,
}

/// A TRON transaction. The timestamp is the raw TRON one, in milliseconds.
#[derive(Debug, Clone)]
pub struct TransactionRow {
    pub tx_hash: String,
    pub block_number: u64,
    pub timestamp: u64,
    pub from_address: String,
    pub to_address: String,
    pub contract_address: String,
    pub contract_type: String,
    pub amount: u128,
    pub fee: u128,
    pub energy_fee: u128,
    pub net_fee: u128,
    pub energy_usage: u64,
    pub energy_usage_total: u64,
    pub net_usage: u64,
    pub status: u8,
    pub memo: String,
}

/// A TRC-20 token transfer.
#[derive(Debug, Clone)]
pub struct TronTokenTransferRow {
    pub tx_hash: String,
    pub block_number: u64,
    pub timestamp: u64,
    pub log_index: u32,
    pub token_address: String,
    pub from_address: String,
    pub to_address: String,
    pub amount: u128,
    pub is_mint: u8,
    pub is_burn: u8,
    pub event_signature: String,
}

/// An event log as emitted by a contract.
#[derive(Debug, Clone)]
pub struct TronRawLogRow {
    pub tx_hash: String,
    pub block_number: u64,
    pub log_index: u32,
    pub contract_address: String,
    pub topics: Vec<String>,
    pub data: String,
    pub removed: u8,
    pub timestamp: u64,
}

/// The risk assessed for a transaction.
#[derive(Debug, Clone)]
pub struct TransactionRiskRow {
    pub tx_hash: String,
    pub block_number: u64,
    pub timestamp: u64,
    pub risk_score: u8,
    pub risk_level: String,
    pub transaction_type: String,
    pub transaction_subtype: String,
    pub is_swap: u8,
    pub is_bridge: u8,
    pub is_contract_call: u8,
    pub unique_tokens: u16,
    pub participants: u16,
    pub risk_reasons: Vec<String>,
    pub touches_exchange: u8,
}

/// A movement of value from one address to another.
#[derive(Debug, Clone)]
pub struct AddressRelationshipRow {
    pub relationship_id: String,
    pub from_address: String,
    pub to_address: String,
    pub token_address: String,
    pub tx_hash: String,
    pub block_number: u64,
    pub timestamp: u64,
    pub amount: u128,
    pub transfer_type: String,
    pub event_type: String,
    pub protocol: String,
    pub risk_score: u8,
    pub hop_count: u16,
}

/// The last block synchronised on a chain.
#[derive(Debug, Clone)]
pub struct SyncStateRow {
    pub chain: String,
    pub last_synced_block: u64,
}

/// What is known of a contract. `created_at_block` is stored as `created_block`.
#[derive(Debug, Clone)]
pub struct ContractMetadataRow {
    pub contract_address: String,
    pub protocol_name: String,
    pub contract_type: String,
    pub creator_address: String,
    pub created_at_block: u64,
}

/// A row written to ClickHouse in batches, to the table `TABLE`.
pub trait BatchInsert: Clone {
    const TABLE: &'static str;
}

impl BatchInsert for TransactionRow {
    const TABLE: &'static str = "transactions";
}

impl BatchInsert for TronTokenTransferRow {
    const TABLE: &'static str = "token_transfers";
}

impl BatchInsert for TronRawLogRow {
    const TABLE: &'static str = "raw_logs";
}

impl BatchInsert for AddressRelationshipRow {
    const TABLE: &'static str = "address_relationships";
}

impl BatchInsert for TransactionRiskRow {
    const TABLE: &'static str = "transaction_risk";
}

impl BatchInsert for ContractMetadataRow {
    const TABLE: &'static str = "contract_metadata";
}

} // verus!
