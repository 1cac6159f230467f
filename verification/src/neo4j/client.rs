//! The connection settings of the graph database.
use vstd::prelude::*;

use crate::text::{
    chars_of, concat2, contains, spec_contains, spec_starts_with, spec_trim, starts_with,
    string_of_range, trim,
};

verus! {

/// The Bolt endpoint that the driver connects to: the URI trimmed, without a
/// `bolt://` or else `neo4j://` scheme, with `:7687` appended when it names no port.
pub open spec fn spec_normalize_bolt_endpoint(uri: Seq<char>) -> Seq<char> {
    let t = spec_trim(uri);
    let e = if spec_starts_with(t, "bolt://"@) {
        t.skip("bolt://"@.len() as int)
    } else if spec_starts_with(t, "neo4j://"@) {
        t.skip("neo4j://"@.len() as int)
    } else {
        t
    };
    if spec_contains(e, ":"@) {
        e
    } else {
        e + ":7687"@
    }
}

/// The Bolt endpoint for a configured URI (see [`spec_normalize_bolt_endpoint`]).
pub fn normalize_bolt_endpoint(uri: &str) -> (r: String)
    ensures
        r@ == spec_normalize_bolt_endpoint(uri@),
{
    let t = trim(uri);
    let cs = chars_of(t.as_str());
    let bolt = chars_of("bolt://");
    let neo = chars_of("neo4j://");
    let endpoint = if starts_with(&cs, &bolt) {
        string_of_range(&cs, bolt.len(), cs.len())
    } else if starts_with(&cs, &neo) {
        string_of_range(&cs, neo.len(), cs.len())
    } else {
        t
    };
    assert(cs@.subrange(bolt@.len() as int, cs@.len() as int) =~= cs@.skip(bolt@.len() as int));
    assert(cs@.subrange(neo@.len() as int, cs@.len() as int) =~= cs@.skip(neo@.len() as int));
    if contains(endpoint.as_str(), ":") {
        endpoint
    } else {
        concat2(endpoint.as_str(), ":7687")
    }
}

/// The constraints and indexes of the wallet graph.
pub open spec fn spec_schema_statements() -> Seq<Seq<char>> {
    seq![
        "CREATE CONSTRAINT wallet_address IF NOT EXISTS FOR (w:Wallet) REQUIRE w.address IS UNIQUE"@,
        "CREATE CONSTRAINT exchange_name IF NOT EXISTS FOR (e:Exchange) REQUIRE e.name IS UNIQUE"@,
        "CREATE INDEX transfer_id IF NOT EXISTS FOR ()-[t:TRANSFER]-() ON (t.id)"@,
        "CREATE INDEX transfer_tx_hash IF NOT EXISTS FOR ()-[t:TRANSFER]-() ON (t.tx_hash)"@,
        "CREATE INDEX wallet_exchange_role IF NOT EXISTS FOR (w:Wallet) ON (w.exchange_role)"@,
        "CREATE INDEX wallet_node_type IF NOT EXISTS FOR (w:Wallet) ON (w.node_type)"@,
        "CREATE INDEX wallet_entity_type IF NOT EXISTS FOR (w:Wallet) ON (w.entity_type)"@,
        "CREATE INDEX native_transfer_id IF NOT EXISTS FOR ()-[r:NATIVE_TRANSFER]-() ON (r.id)"@,
        "CREATE INDEX trc20_transfer_id IF NOT EXISTS FOR ()-[r:TRC20_TRANSFER]-() ON (r.id)"@,
        "CREATE INDEX swap_id IF NOT EXISTS FOR ()-[r:SWAP]-() ON (r.id)"@,
        "CREATE INDEX bridge_id IF NOT EXISTS FOR ()-[r:BRIDGE]-() ON (r.id)"@,
        "CREATE INDEX exchange_deposit_id IF NOT EXISTS FOR ()-[r:EXCHANGE_DEPOSIT]-() ON (r.id)"@,
        "CREATE INDEX exchange_withdrawal_id IF NOT EXISTS FOR ()-[r:EXCHANGE_WITHDRAWAL]-() ON (r.id)"@,
        "CREATE INDEX exchange_sweep_id IF NOT EXISTS FOR ()-[r:EXCHANGE_SWEEP]-() ON (r.id)"@,
        "CREATE INDEX exchange_transfer_id IF NOT EXISTS FOR ()-[r:EXCHANGE_TRANSFER]-() ON (r.id)"@,
        "CREATE INDEX internal_transfer_id IF NOT EXISTS FOR ()-[r:INTERNAL_TRANSFER]-() ON (r.id)"@,
        "CREATE INDEX liquidity_add_id IF NOT EXISTS FOR ()-[r:LIQUIDITY_ADD]-() ON (r.id)"@,
        "CREATE INDEX liquidity_remove_id IF NOT EXISTS FOR ()-[r:LIQUIDITY_REMOVE]-() ON (r.id)"@,
        "CREATE INDEX mint_id IF NOT EXISTS FOR ()-[r:MINT]-() ON (r.id)"@,
        "CREATE INDEX burn_id IF NOT EXISTS FOR ()-[r:BURN]-() ON (r.id)"@,
        "CREATE INDEX money_flow_id IF NOT EXISTS FOR ()-[r:MONEY_FLOW]-() ON (r.id)"@,
    ]
}

/// The statements that set up the graph's constraints and indexes, in order;
/// each is a no-op when already applied.
pub fn schema_statements() -> (r: Vec<&'static str>)
    ensures
        r@.map_values(|s: &'static str| s@) == spec_schema_statements(),
{
    let r = vec![
        "CREATE CONSTRAINT wallet_address IF NOT EXISTS FOR (w:Wallet) REQUIRE w.address IS UNIQUE",
        "CREATE CONSTRAINT exchange_name IF NOT EXISTS FOR (e:Exchange) REQUIRE e.name IS UNIQUE",
        "CREATE INDEX transfer_id IF NOT EXISTS FOR ()-[t:TRANSFER]-() ON (t.id)",
        "CREATE INDEX transfer_tx_hash IF NOT EXISTS FOR ()-[t:TRANSFER]-() ON (t.tx_hash)",
        "CREATE INDEX wallet_exchange_role IF NOT EXISTS FOR (w:Wallet) ON (w.exchange_role)",
        "CREATE INDEX wallet_node_type IF NOT EXISTS FOR (w:Wallet) ON (w.node_type)",
        "CREATE INDEX wallet_entity_type IF NOT EXISTS FOR (w:Wallet) ON (w.entity_type)",
        "CREATE INDEX native_transfer_id IF NOT EXISTS FOR ()-[r:NATIVE_TRANSFER]-() ON (r.id)",
        "CREATE INDEX trc20_transfer_id IF NOT EXISTS FOR ()-[r:TRC20_TRANSFER]-() ON (r.id)",
        "CREATE INDEX swap_id IF NOT EXISTS FOR ()-[r:SWAP]-() ON (r.id)",
        "CREATE INDEX bridge_id IF NOT EXISTS FOR ()-[r:BRIDGE]-() ON (r.id)",
        "CREATE INDEX exchange_deposit_id IF NOT EXISTS FOR ()-[r:EXCHANGE_DEPOSIT]-() ON (r.id)",
        "CREATE INDEX exchange_withdrawal_id IF NOT EXISTS FOR ()-[r:EXCHANGE_WITHDRAWAL]-() ON (r.id)",
        "CREATE INDEX exchange_sweep_id IF NOT EXISTS FOR ()-[r:EXCHANGE_SWEEP]-() ON (r.id)",
        "CREATE INDEX exchange_transfer_id IF NOT EXISTS FOR ()-[r:EXCHANGE_TRANSFER]-() ON (r.id)",
        "CREATE INDEX internal_transfer_id IF NOT EXISTS FOR ()-[r:INTERNAL_TRANSFER]-() ON (r.id)",
        "CREATE INDEX liquidity_add_id IF NOT EXISTS FOR ()-[r:LIQUIDITY_ADD]-() ON (r.id)",
        "CREATE INDEX liquidity_remove_id IF NOT EXISTS FOR ()-[r:LIQUIDITY_REMOVE]-() ON (r.id)",
        "CREATE INDEX mint_id IF NOT EXISTS FOR ()-[r:MINT]-() ON (r.id)",
        "CREATE INDEX burn_id IF NOT EXISTS FOR ()-[r:BURN]-() ON (r.id)",
        "CREATE INDEX money_flow_id IF NOT EXISTS FOR ()-[r:MONEY_FLOW]-() ON (r.id)",
    ];
    assert(r@.map_values(|s: &'static str| s@) =~= spec_schema_statements());
    r
}

/// Law (the endpoint names a port): whatever the configured URI, the Bolt
/// endpoint contains a `:`.
pub proof fn lemma_bolt_endpoint_names_a_port(uri: Seq<char>)
    ensures
        spec_contains(spec_normalize_bolt_endpoint(uri), ":"@),
{
    let t = spec_trim(uri);
    let e = if spec_starts_with(t, "bolt://"@) {
        t.skip("bolt://"@.len() as int)
    } else if spec_starts_with(t, "neo4j://"@) {
        t.skip("neo4j://"@.len() as int)
    } else {
        t
    };
    if !spec_contains(e, ":"@) {
        reveal_strlit(":7687");
        reveal_strlit(":");
        let r = e + ":7687"@;
        assert(r.subrange(e.len() as int, e.len() + 1int) =~= ":"@);
        assert(crate::text::occurs_at(r, ":"@, e.len() as int));
    }
}

} // verus!
