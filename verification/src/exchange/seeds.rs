//! Manually verified exchange hot wallets and the attributions they give.
use vstd::prelude::*;

use crate::exchange::types::{
    exchange_entity_id, spec_exchange_entity_id, spec_unattributed_exchange_entity_id,
    spec_unattributed_exchange_name, unattributed_exchange_entity_id, unattributed_exchange_name,
    ExchangeAttribution, ExchangeWalletRole,
};
use crate::text::owned;

verus! {

/// Confidence, in basis points, of a seed whose exchange is named.
pub const KNOWN_SEED_CONFIDENCE_BPS: u32 = 10000;

/// Confidence, in basis points, of a seed known to be an exchange hot wallet
/// whose exchange is not named.
pub const UNATTRIBUTED_SEED_CONFIDENCE_BPS: u32 = 9500;

/// A hot wallet known to belong to an exchange. The confidence is in basis
/// points (10 000 is full confidence).
#[derive(Debug, Clone, Copy)]
pub struct ExchangeHotWalletSeed {
    pub address: &'static str,
    pub exchange_name: Option<&'static str>,
    pub confidence_bps: u32,
}

/// A seed as plain values: address, exchange name if known, confidence.
pub type SeedView = (Seq<char>, Option<Seq<char>>, u32);

/// The plain values of a seed.
pub open spec fn seed_view(s: ExchangeHotWalletSeed) -> SeedView {
    (
        s.address@,
        match s.exchange_name {
            Some(n) => Some(n@),
            None => None,
        },
        s.confidence_bps,
    )
}

/// A hot wallet of a named exchange, with full confidence.
pub fn known_exchange_hot_wallet(address: &'static str, exchange_name: &'static str) -> (s:
    ExchangeHotWalletSeed)
    ensures
        seed_view(s) == (address@, Some(exchange_name@), KNOWN_SEED_CONFIDENCE_BPS),
{
    ExchangeHotWalletSeed {
        address,
        exchange_name: Some(exchange_name),
        confidence_bps: KNOWN_SEED_CONFIDENCE_BPS,
    }
}

/// A hot wallet known to be an exchange's without naming the exchange.
pub fn unattributed_exchange_hot_wallet(address: &'static str) -> (s: ExchangeHotWalletSeed)
    ensures
        seed_view(s) == (address@, None::<Seq<char>>, UNATTRIBUTED_SEED_CONFIDENCE_BPS),
{
    ExchangeHotWalletSeed { address, exchange_name: None, confidence_bps: UNATTRIBUTED_SEED_CONFIDENCE_BPS }
}

/// The manually verified TRON exchange hot wallets.
pub open spec fn manual_seed_table() -> Seq<SeedView> {
    seq![
        ("TAUN6FwrnwwmaEqYcckffC7wYmbaS6cBiX"@, Some("Binance"@), KNOWN_SEED_CONFIDENCE_BPS),
        ("TU2TmqauSEiRf16CyFgzHV2BVxBejY9iyR"@, Some("OKX"@), KNOWN_SEED_CONFIDENCE_BPS),
    ]
}

/// The manually verified TRON exchange hot wallets. Add new ones here, with
/// `unattributed_exchange_hot_wallet` where the exchange is not to be named.
pub fn manual_exchange_hot_wallets() -> (r: Vec<ExchangeHotWalletSeed>)
    ensures
        r@.map_values(|s: ExchangeHotWalletSeed| seed_view(s)) == manual_seed_table(),
{
    let r = vec![
        known_exchange_hot_wallet("TAUN6FwrnwwmaEqYcckffC7wYmbaS6cBiX", "Binance"),
        known_exchange_hot_wallet("TU2TmqauSEiRf16CyFgzHV2BVxBejY9iyR", "OKX"),
    ];
    assert(r@.map_values(|s: ExchangeHotWalletSeed| seed_view(s)) =~= manual_seed_table());
    r
}

/// The exchange name a seed is attributed to: its own, or one made from its address.
pub open spec fn seed_exchange_name(seed: SeedView) -> Seq<char> {
    match seed.1 {
        Some(n) => n,
        None => spec_unattributed_exchange_name(seed.0),
    }
}

/// The cluster id of a seed's exchange.
pub open spec fn seed_cluster_id(seed: SeedView) -> Seq<char> {
    match seed.1 {
        Some(n) => spec_exchange_entity_id(n),
        None => spec_unattributed_exchange_entity_id(seed.0),
    }
}

/// `a` is the attribution a seed gives to its own address: the seed's
/// exchange, role `HOT`, the seed's confidence, source
/// `manual_hot_wallet_seed`, and the exchange's cluster id.
pub open spec fn is_seed_attribution(a: ExchangeAttribution, seed: SeedView) -> bool {
    &&& a.exchange_name@ == seed_exchange_name(seed)
    &&& a.role@ == "HOT"@
    &&& a.confidence_bps == seed.2
    &&& a.detection_source@ == "manual_hot_wallet_seed"@
    &&& a.cluster_id matches Some(c) && c@ == seed_cluster_id(seed)
}

/// The attribution a seed gives to its own address.
pub fn seed_attribution(seed: &ExchangeHotWalletSeed) -> (a: ExchangeAttribution)
    ensures
        is_seed_attribution(a, seed_view(*seed)),
{
    let (exchange_name, cluster_id) = match seed.exchange_name {
        Some(name) => (owned(name), exchange_entity_id(name)),
        None => (
            unattributed_exchange_name(seed.address),
            unattributed_exchange_entity_id(seed.address),
        ),
    };
    ExchangeAttribution {
        exchange_name,
        role: ExchangeWalletRole::Hot.to_string(),
        confidence_bps: seed.confidence_bps,
        detection_source: owned("manual_hot_wallet_seed"),
        cluster_id: Some(cluster_id),
    }
}

/// `r` holds, in table order, each seed's address with the attribution it gives.
pub open spec fn is_seed_list(r: Seq<(String, ExchangeAttribution)>, table: Seq<SeedView>) -> bool {
    &&& r.len() == table.len()
    &&& forall|i: int|
        0 <= i < r.len() ==> #[trigger] r[i].0@ == table[i].0 && is_seed_attribution(
            r[i].1,
            table[i],
        )
}

/// Every manual seed's address with the attribution it gives.
pub fn exchange_seeds() -> (r: Vec<(String, ExchangeAttribution)>)
    ensures
        is_seed_list(r@, manual_seed_table()),
{
    let seeds = manual_exchange_hot_wallets();
    let ghost table = manual_seed_table();
    let mut r: Vec<(String, ExchangeAttribution)> = Vec::new();
    let mut i: usize = 0;
    while i < seeds.len()
        invariant
            i <= seeds@.len(),
            seeds@.map_values(|s: ExchangeHotWalletSeed| seed_view(s)) == table,
            table == manual_seed_table(),
            is_seed_list(r@, table.take(i as int)),
        decreases seeds.len() - i,
    {
        let seed = &seeds[i];
        assert(seed_view(*seed) == table[i as int]);
        let a = seed_attribution(seed);
        let ghost before = r@;
        r.push((owned(seed.address), a));
        i = i + 1;
        assert forall|k: int| 0 <= k < r@.len() implies #[trigger] r@[k].0@ == table.take(i as int)[k].0
            && is_seed_attribution(r@[k].1, table.take(i as int)[k]) by {
            assert(table.take(i as int)[k] == table[k]);
            if k < i - 1 {
                assert(r@[k] == before[k]);
                assert(before[k].0@ == table.take(i - 1)[k].0);
                assert(table.take(i - 1)[k] == table[k]);
            }
        }
    }
    assert(table.take(seeds@.len() as int) =~= table);
    r
}

/// No two manual seeds share an address.
pub proof fn lemma_manual_seed_addresses_distinct()
    ensures
        forall|i: int, j: int|
            0 <= i < j < manual_seed_table().len() ==> manual_seed_table()[i].0
                != manual_seed_table()[j].0,
{
    reveal_strlit("TAUN6FwrnwwmaEqYcckffC7wYmbaS6cBiX");
    reveal_strlit("TU2TmqauSEiRf16CyFgzHV2BVxBejY9iyR");
    assert("TAUN6FwrnwwmaEqYcckffC7wYmbaS6cBiX"@[1] != "TU2TmqauSEiRf16CyFgzHV2BVxBejY9iyR"@[1]);
}

} // verus!
