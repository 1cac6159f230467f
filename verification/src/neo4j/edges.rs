//! Relationship types and identifiers of the flow edges.
use vstd::prelude::*;

use crate::text::{concat3, str_eq};

verus! {

/// The relationship types that flow edges may carry.
pub open spec fn is_known_relationship_type(t: Seq<char>) -> bool {
    ||| t == "SWAP"@
    ||| t == "BRIDGE"@
    ||| t == "EXCHANGE_DEPOSIT"@
    ||| t == "EXCHANGE_WITHDRAWAL"@
    ||| t == "EXCHANGE_SWEEP"@
    ||| t == "EXCHANGE_TRANSFER"@
    ||| t == "INTERNAL_TRANSFER"@
    ||| t == "LIQUIDITY_ADD"@
    ||| t == "LIQUIDITY_REMOVE"@
    ||| t == "MINT"@
    ||| t == "BURN"@
    ||| t == "NATIVE_TRANSFER"@
    ||| t == "TRC20_TRANSFER"@
}

/// The relationship type put into a query: a known type as it is, anything
/// else as `MONEY_FLOW`.
pub open spec fn spec_safe_relationship_type(t: Seq<char>) -> Seq<char> {
    if is_known_relationship_type(t) {
        t
    } else {
        "MONEY_FLOW"@
    }
}

/// The relationship type that may be spliced into a query (see
/// [`spec_safe_relationship_type`]).
pub fn safe_relationship_type(relationship_type: &str) -> (r: &'static str)
    ensures
        r@ == spec_safe_relationship_type(relationship_type@),
{
    let t = relationship_type;
    if str_eq(t, "SWAP") {
        "SWAP"
    } else if str_eq(t, "BRIDGE") {
        "BRIDGE"
    } else if str_eq(t, "EXCHANGE_DEPOSIT") {
        "EXCHANGE_DEPOSIT"
    } else if str_eq(t, "EXCHANGE_WITHDRAWAL") {
        "EXCHANGE_WITHDRAWAL"
    } else if str_eq(t, "EXCHANGE_SWEEP") {
        "EXCHANGE_SWEEP"
    } else if str_eq(t, "EXCHANGE_TRANSFER") {
        "EXCHANGE_TRANSFER"
    } else if str_eq(t, "INTERNAL_TRANSFER") {
        "INTERNAL_TRANSFER"
    } else if str_eq(t, "LIQUIDITY_ADD") {
        "LIQUIDITY_ADD"
    } else if str_eq(t, "LIQUIDITY_REMOVE") {
        "LIQUIDITY_REMOVE"
    } else if str_eq(t, "MINT") {
        "MINT"
    } else if str_eq(t, "BURN") {
        "BURN"
    } else if str_eq(t, "NATIVE_TRANSFER") {
        "NATIVE_TRANSFER"
    } else if str_eq(t, "TRC20_TRANSFER") {
        "TRC20_TRANSFER"
    } else {
        "MONEY_FLOW"
    }
}

/// The identifier of a wallet's interaction with an exchange:
/// `wallet:exchange:exchange_address:tx_hash:direction`.
pub fn interaction_id(
    wallet_address: &str,
    exchange_name: &str,
    exchange_address: &str,
    tx_hash: &str,
    direction: &str,
) -> (id: String)
    ensures
        id@ == wallet_address@ + ":"@ + exchange_name@ + ":"@ + exchange_address@ + ":"@ + tx_hash@
            + ":"@ + direction@,
{
    let mut id = concat3(wallet_address, ":", exchange_name);
    id.append(":");
    id.append(exchange_address);
    id.append(":");
    id.append(tx_hash);
    id.append(":");
    id.append(direction);
    id
}

} // verus!
