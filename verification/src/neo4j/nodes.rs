//! The labels given to wallet nodes.
use vstd::prelude::*;

use crate::text::{chars_of, spec_starts_with, starts_with, str_eq};

verus! {

/// Labels an exchange wallet.
pub const EXCHANGE_WALLET_LABEL_QUERY: &'static str =
    "MATCH (w:Wallet { address: $address }) SET w:ExchangeWallet";
/// Labels a bridge.
pub const BRIDGE_LABEL_QUERY: &'static str =
    "MATCH (w:Wallet { address: $address }) SET w:Bridge:Protocol";
/// Labels a protocol.
pub const PROTOCOL_LABEL_QUERY: &'static str =
    "MATCH (w:Wallet { address: $address }) SET w:Protocol";
/// Labels any other wallet.
pub const EXTERNAL_WALLET_LABEL_QUERY: &'static str =
    "MATCH (w:Wallet { address: $address }) SET w:ExternalWallet";

/// The label query for a node type: exchange wallets (`exchange_wallet` or any
/// type starting with `exchange_`), bridges, protocols, and external wallets.
pub open spec fn spec_node_type_label_query(node_type: Seq<char>) -> Seq<char> {
    if node_type == "exchange_wallet"@ {
        EXCHANGE_WALLET_LABEL_QUERY@
    } else if node_type == "bridge"@ {
        BRIDGE_LABEL_QUERY@
    } else if node_type == "protocol"@ {
        PROTOCOL_LABEL_QUERY@
    } else if spec_starts_with(node_type, "exchange_"@) {
        EXCHANGE_WALLET_LABEL_QUERY@
    } else {
        EXTERNAL_WALLET_LABEL_QUERY@
    }
}

/// The query that labels a wallet node by its type (see [`spec_node_type_label_query`]).
pub fn node_type_label_query(node_type: &str) -> (q: &'static str)
    ensures
        q@ == spec_node_type_label_query(node_type@),
{
    if str_eq(node_type, "exchange_wallet") {
        EXCHANGE_WALLET_LABEL_QUERY
    } else if str_eq(node_type, "bridge") {
        BRIDGE_LABEL_QUERY
    } else if str_eq(node_type, "protocol") {
        PROTOCOL_LABEL_QUERY
    } else if starts_with(&chars_of(node_type), &chars_of("exchange_")) {
        EXCHANGE_WALLET_LABEL_QUERY
    } else {
        EXTERNAL_WALLET_LABEL_QUERY
    }
}

} // verus!
