//! Exchange wallet detection: seed lookups, address statistics and the
//! classification of an address as a deposit, hot, sweep or withdraw wallet.
use vstd::prelude::*;

use crate::aml::types::SimpleTransfer;
use crate::exchange::cluster_expander::{senders_to, senders_to_wallet};
use crate::exchange::heuristics::{inbound_count, outbound_count};
use crate::exchange::seeds::{
    exchange_seeds, is_seed_attribution, is_seed_list, lemma_manual_seed_addresses_distinct, manual_seed_table,
    seed_exchange_name,
};
use crate::exchange::types::{spec_exchange_entity_id, ExchangeAttribution, ExchangeWalletRole};
use crate::aml::heuristics::{receiver_strings, sender_strings};
use crate::exchange::cluster_expander::is_set_of;
use crate::text::{
    concat3, count_distinct, decimal_string, distinct_count, insert_distinct, owned, same,
    spec_ascii_lower_seq, spec_decimal, str_eq, to_ascii_lowercase, views,
};

verus! {

/// An exchange's entity id (see [`crate::exchange::types::exchange_entity_id`]).
pub fn exchange_entity_id(exchange_name: &str) -> (id: String)
    ensures
        id@ == spec_exchange_entity_id(exchange_name@),
{
    crate::exchange::types::exchange_entity_id(exchange_name)
}

/// `a` is the address of a manual seed.
pub open spec fn is_seed_address(a: Seq<char>) -> bool {
    exists|i: int| 0 <= i < manual_seed_table().len() && #[trigger] manual_seed_table()[i].0 == a
}

/// `x` is the attribution that the seed at address `a` gives.
pub open spec fn is_seed_attribution_at(x: ExchangeAttribution, a: Seq<char>) -> bool {
    exists|i: int|
        0 <= i < manual_seed_table().len() && #[trigger] manual_seed_table()[i].0 == a
            && is_seed_attribution(x, manual_seed_table()[i])
}

/// A field-by-field copy of an attribution.
pub fn copy_attribution(a: &ExchangeAttribution) -> (r: ExchangeAttribution)
    ensures
        r == *a,
{
    ExchangeAttribution {
        exchange_name: a.exchange_name.clone(),
        role: a.role.clone(),
        confidence_bps: a.confidence_bps,
        detection_source: a.detection_source.clone(),
        cluster_id: match &a.cluster_id {
            Some(c) => Some(c.clone()),
            None => None,
        },
    }
}

/// The attribution of a manual seed address; `None` for any other address.
pub fn detect_exchange(address: &str) -> (r: Option<ExchangeAttribution>)
    ensures
        match r {
            Some(x) => is_seed_attribution_at(x, address@),
            None => !is_seed_address(address@),
        },
{
    let seeds = exchange_seeds();
    let a = owned(address);
    let mut i: usize = 0;
    while i < seeds.len()
        invariant
            i <= seeds@.len(),
            crate::exchange::seeds::is_seed_list(seeds@, manual_seed_table()),
            a@ == address@,
            forall|k: int| 0 <= k < i ==> manual_seed_table()[k].0 != address@,
        decreases seeds.len() - i,
    {
        assert(seeds@[i as int].0@ == manual_seed_table()[i as int].0);
        if same(&seeds[i].0, &a) {
            let x = copy_attribution(&seeds[i].1);
            assert(manual_seed_table()[i as int].0 == address@);
            return Some(x);
        }
        i = i + 1;
    }
    None
}

/// How an address has been seen moving funds.
#[derive(Debug, Clone, Copy, PartialEq, Eq, Structural)]
pub struct AddressStats {
    pub inbound_txs: u64,
    pub outbound_txs: u64,
    pub unique_senders: u64,
    pub unique_receivers: u64,
    pub first_seen_block: u64,
    pub last_seen_block: u64,
}

/// An exchange wallet that an address sends to. The confidence is in basis points.
#[derive(Debug, Clone)]
pub struct ExchangeCounterparty {
    pub address: String,
    pub exchange_name: String,
    pub role: String,
    pub confidence_bps: u32,
    pub last_seen_block: u64,
    pub tx_count: u64,
}

/// Least inbound transfers of a sweep or hot wallet.
pub const MIN_SWEEP_INBOUND_TXS: u64 = 25;
/// Least distinct senders of a sweep or hot wallet.
pub const MIN_SWEEP_UNIQUE_SENDERS: u64 = 20;
/// Least outbound transfers of a withdraw or hot wallet.
pub const MIN_WITHDRAW_OUTBOUND_TXS: u64 = 25;
/// Least distinct receivers of a withdraw or hot wallet.
pub const MIN_WITHDRAW_UNIQUE_RECEIVERS: u64 = 20;

/// The receivers of the transfers sent by `w`, in order (with repeats).
pub open spec fn receivers_from(ts: Seq<SimpleTransfer>, w: Seq<char>) -> Seq<String>
    decreases ts.len(),
{
    if ts.len() == 0 {
        Seq::empty()
    } else {
        receivers_from(ts.drop_last(), w) + (if ts.last().from@ == w {
            seq![ts.last().to]
        } else {
            Seq::empty()
        })
    }
}

proof fn lemma_senders_to_len(ts: Seq<SimpleTransfer>, w: Seq<char>)
    ensures
        senders_to(ts, w).len() == inbound_count(ts, w),
    decreases ts.len(),
{
    if ts.len() > 0 {
        lemma_senders_to_len(ts.drop_last(), w);
        assert(receiver_strings(ts).drop_last() =~= receiver_strings(ts.drop_last()));
        assert(receiver_strings(ts).last() == ts.last().to);
    }
}

proof fn lemma_receivers_from_len(ts: Seq<SimpleTransfer>, w: Seq<char>)
    ensures
        receivers_from(ts, w).len() == outbound_count(ts, w),
    decreases ts.len(),
{
    if ts.len() > 0 {
        lemma_receivers_from_len(ts.drop_last(), w);
        assert(sender_strings(ts).drop_last() =~= sender_strings(ts.drop_last()));
        assert(sender_strings(ts).last() == ts.last().from);
    }
}

fn receivers_from_wallet(transfers: &[SimpleTransfer], w: &String) -> (r: Vec<String>)
    ensures
        views(r@) == views(receivers_from(transfers@, w@)),
        r@.len() == receivers_from(transfers@, w@).len(),
{
    let mut r: Vec<String> = Vec::new();
    let mut k: usize = 0;
    while k < transfers.len()
        invariant
            k <= transfers@.len(),
            views(r@) == views(receivers_from(transfers@.take(k as int), w@)),
            r@.len() == receivers_from(transfers@.take(k as int), w@).len(),
        decreases transfers.len() - k,
    {
        let ghost r0 = r@;
        let t = &transfers[k];
        assert(transfers@.take(k + 1).drop_last() =~= transfers@.take(k as int));
        assert(transfers@.take(k + 1).last() == *t);
        if same(&t.from, w) {
            r.push(t.to.clone());
            assert(views(r@) =~= views(r0).push(t.to@));
            assert(views(r@) =~= views(receivers_from(transfers@.take(k + 1), w@)));
        } else {
            assert(views(r@) =~= views(receivers_from(transfers@.take(k + 1), w@)));
        }
        k = k + 1;
    }
    assert(transfers@.take(transfers@.len() as int) =~= transfers@);
    r
}

/// `w` sends or receives at least one of the transfers.
pub open spec fn touches_wallet(ts: Seq<SimpleTransfer>, w: Seq<char>) -> bool {
    inbound_count(ts, w) > 0 || outbound_count(ts, w) > 0
}

/// The statistics of `address` once the transfers of the block being processed
/// are counted: each received transfer adds to the inbound count and each sent
/// one to the outbound count; the distinct senders to and receivers from the
/// address in the block add to the unique counts; if the address takes part
/// in the block, the first block seen becomes the block (when unset, i.e. 0)
/// or the earlier of the two, and the last block seen the later of the two.
pub fn stats_with_current_transfers(
    stats: AddressStats,
    address: &str,
    block_number: u64,
    transfers: &[SimpleTransfer],
) -> (r: AddressStats)
    requires
        stats.inbound_txs + inbound_count(transfers@, address@) <= u64::MAX,
        stats.outbound_txs + outbound_count(transfers@, address@) <= u64::MAX,
        stats.unique_senders + distinct_count(senders_to(transfers@, address@)) <= u64::MAX,
        stats.unique_receivers + distinct_count(receivers_from(transfers@, address@)) <= u64::MAX,
    ensures
        r.inbound_txs == stats.inbound_txs + inbound_count(transfers@, address@),
        r.outbound_txs == stats.outbound_txs + outbound_count(transfers@, address@),
        r.unique_senders == stats.unique_senders + distinct_count(senders_to(transfers@, address@)),
        r.unique_receivers == stats.unique_receivers + distinct_count(
            receivers_from(transfers@, address@),
        ),
        r.first_seen_block == if !touches_wallet(transfers@, address@) {
            stats.first_seen_block
        } else if stats.first_seen_block == 0 || block_number < stats.first_seen_block {
            block_number
        } else {
            stats.first_seen_block
        },
        r.last_seen_block == if touches_wallet(transfers@, address@)
            && block_number > stats.last_seen_block {
            block_number
        } else {
            stats.last_seen_block
        },
{
    let a = owned(address);
    let senders = senders_to_wallet(transfers, &a);
    let receivers = receivers_from_wallet(transfers, &a);
    let ghost ts = transfers@;
    proof {
        lemma_senders_to_len(ts, address@);
        lemma_receivers_from_len(ts, address@);
        assert(senders@.len() == views(senders@).len());
        assert(views(senders_to(ts, address@)).len() == senders_to(ts, address@).len());
    }
    let n_in = senders.len();
    let n_out = receivers.len();
    let d_in = count_distinct(senders.as_slice());
    let d_out = count_distinct(receivers.as_slice());
    assert(distinct_count(senders@) == distinct_count(senders_to(ts, address@)));
    assert(distinct_count(receivers@) == distinct_count(receivers_from(ts, address@)));
    let mut r = stats;
    r.inbound_txs = stats.inbound_txs + n_in as u64;
    r.outbound_txs = stats.outbound_txs + n_out as u64;
    r.unique_senders = stats.unique_senders + d_in as u64;
    r.unique_receivers = stats.unique_receivers + d_out as u64;
    if n_in > 0 || n_out > 0 {
        if r.first_seen_block == 0 || block_number < r.first_seen_block {
            r.first_seen_block = block_number;
        }
        if block_number > r.last_seen_block {
            r.last_seen_block = block_number;
        }
    }
    r
}

/// A role of an exchange wallet that deposit wallets sweep to.
pub open spec fn spec_is_exchange_counterparty_role(role: Seq<char>) -> bool {
    role == "HOT"@ || role == "SWEEP"@ || role == "TREASURY"@ || role == "INTERNAL"@
}

/// Whether `role` is `HOT`, `SWEEP`, `TREASURY` or `INTERNAL`.
pub fn is_exchange_counterparty_role(role: &str) -> (r: bool)
    ensures
        r == spec_is_exchange_counterparty_role(role@),
{
    str_eq(role, "HOT") || str_eq(role, "SWEEP") || str_eq(role, "TREASURY") || str_eq(
        role,
        "INTERNAL",
    )
}

/// A deposit wallet: it sends to the exchange, has a few outbound transfers
/// (at most 25) to at most three receivers, and has a customer side.
pub open spec fn spec_is_probable_deposit(s: AddressStats, c: ExchangeCounterparty) -> bool {
    &&& c.tx_count > 0
    &&& s.outbound_txs > 0
    &&& s.unique_receivers <= 3
    &&& (s.inbound_txs > 0 || s.unique_senders > 0)
    &&& s.outbound_txs <= 25
}

/// A sweep wallet: large fan-in from distinct senders, few receivers.
pub open spec fn spec_is_probable_sweep_wallet(s: AddressStats) -> bool {
    &&& s.inbound_txs >= MIN_SWEEP_INBOUND_TXS
    &&& s.unique_senders >= MIN_SWEEP_UNIQUE_SENDERS
    &&& s.unique_senders > (if s.unique_receivers * 3 > u64::MAX {
        u64::MAX as int
    } else {
        s.unique_receivers * 3
    })
}

/// A hot wallet: large fan-in and large fan-out.
pub open spec fn spec_is_probable_hot_wallet(s: AddressStats) -> bool {
    &&& s.inbound_txs >= MIN_SWEEP_INBOUND_TXS
    &&& s.outbound_txs >= MIN_WITHDRAW_OUTBOUND_TXS
    &&& s.unique_senders >= MIN_SWEEP_UNIQUE_SENDERS
    &&& s.unique_receivers >= MIN_WITHDRAW_UNIQUE_RECEIVERS
}

/// A withdraw wallet: large fan-out to distinct receivers, few senders.
pub open spec fn spec_is_probable_withdraw_wallet(s: AddressStats) -> bool {
    &&& s.outbound_txs >= MIN_WITHDRAW_OUTBOUND_TXS
    &&& s.unique_receivers >= MIN_WITHDRAW_UNIQUE_RECEIVERS
    &&& s.unique_receivers > (if s.unique_senders * 3 > u64::MAX {
        u64::MAX as int
    } else {
        s.unique_senders * 3
    })
}

/// `3 * x`, or `u64::MAX` where that does not fit (`u64::saturating_mul`).
fn saturating_triple(x: u64) -> (r: u64)
    ensures
        r == if x * 3 > u64::MAX {
            u64::MAX as int
        } else {
            x * 3
        },
{
    if x > u64::MAX / 3 {
        u64::MAX
    } else {
        x * 3
    }
}

/// Whether the address looks like a deposit wallet of the counterparty's exchange.
pub fn is_probable_deposit(stats: &AddressStats, counterparty: &ExchangeCounterparty) -> (r: bool)
    ensures
        r == spec_is_probable_deposit(*stats, *counterparty),
{
    let sends_to_exchange = counterparty.tx_count > 0;
    let low_outbound_diversity = stats.unique_receivers <= 3;
    let has_customer_side = stats.inbound_txs > 0 || stats.unique_senders > 0;
    sends_to_exchange && stats.outbound_txs > 0 && low_outbound_diversity && has_customer_side
        && stats.outbound_txs <= 25
}

/// Whether the address looks like a sweep wallet (the triple of the receivers
/// saturates at `u64::MAX`).
pub fn is_probable_sweep_wallet(stats: &AddressStats) -> (r: bool)
    ensures
        r == spec_is_probable_sweep_wallet(*stats),
{
    stats.inbound_txs >= MIN_SWEEP_INBOUND_TXS && stats.unique_senders >= MIN_SWEEP_UNIQUE_SENDERS
        && stats.unique_senders > saturating_triple(stats.unique_receivers)
}

/// Whether the address looks like an exchange hot wallet.
pub fn is_probable_hot_wallet(stats: &AddressStats) -> (r: bool)
    ensures
        r == spec_is_probable_hot_wallet(*stats),
{
    stats.inbound_txs >= MIN_SWEEP_INBOUND_TXS && stats.outbound_txs >= MIN_WITHDRAW_OUTBOUND_TXS
        && stats.unique_senders >= MIN_SWEEP_UNIQUE_SENDERS && stats.unique_receivers
        >= MIN_WITHDRAW_UNIQUE_RECEIVERS
}

/// Whether the address looks like a withdraw wallet (the triple of the senders
/// saturates at `u64::MAX`).
pub fn is_probable_withdraw_wallet(stats: &AddressStats) -> (r: bool)
    ensures
        r == spec_is_probable_withdraw_wallet(*stats),
{
    stats.outbound_txs >= MIN_WITHDRAW_OUTBOUND_TXS && stats.unique_receivers
        >= MIN_WITHDRAW_UNIQUE_RECEIVERS && stats.unique_receivers > saturating_triple(stats.unique_senders)
}

/// The four wallet tests, stated on the statistics themselves.
/// A deposit wallet has sent to the exchange, has from 1 to 25 outbound
/// transfers to at most 3 receivers, and has some inbound side. A hot wallet
/// has at least 25 inbound and 25 outbound transfers, and at least 20 distinct
/// senders and 20 distinct receivers. A sweep wallet has at least 25 inbound
/// transfers from at least 20 distinct senders, more than three times as many
/// as its distinct receivers. A withdraw wallet has at least 25 outbound
/// transfers to at least 20 distinct receivers, more than three times as many
/// as its distinct senders. (Three times a count saturates at `u64::MAX`,
/// which no count exceeds, so "more than three times" is exact here.)
pub proof fn lemma_wallet_tests(s: AddressStats, c: ExchangeCounterparty)
    ensures
        spec_is_probable_deposit(s, c) <==> (c.tx_count >= 1 && 1 <= s.outbound_txs <= 25
            && s.unique_receivers <= 3 && (s.inbound_txs >= 1 || s.unique_senders >= 1)),
        spec_is_probable_hot_wallet(s) <==> (s.inbound_txs >= 25 && s.outbound_txs >= 25
            && s.unique_senders >= 20 && s.unique_receivers >= 20),
        spec_is_probable_sweep_wallet(s) <==> (s.inbound_txs >= 25 && s.unique_senders >= 20
            && s.unique_senders > 3 * s.unique_receivers),
        spec_is_probable_withdraw_wallet(s) <==> (s.outbound_txs >= 25 && s.unique_receivers >= 20
            && s.unique_receivers > 3 * s.unique_senders),
{
}

/// The role the heuristics give, stated on the statistics: deposit first
/// (when a counterparty was found), then hot, sweep and withdraw; none when
/// no test passes.
pub proof fn lemma_classification_order(s: AddressStats, c: Option<ExchangeCounterparty>)
    ensures
        ({
            let deposit = c is Some && c->0.tx_count >= 1 && 1 <= s.outbound_txs <= 25
                && s.unique_receivers <= 3 && (s.inbound_txs >= 1 || s.unique_senders >= 1);
            let hot = s.inbound_txs >= 25 && s.outbound_txs >= 25 && s.unique_senders >= 20
                && s.unique_receivers >= 20;
            let sweep = s.inbound_txs >= 25 && s.unique_senders >= 20 && s.unique_senders > 3
                * s.unique_receivers;
            let withdraw = s.outbound_txs >= 25 && s.unique_receivers >= 20 && s.unique_receivers
                > 3 * s.unique_senders;
            &&& (spec_classify_address(s, c) == Some(ExchangeWalletRole::Deposit) <==> deposit)
            &&& (spec_classify_address(s, c) == Some(ExchangeWalletRole::Hot) <==> !deposit && hot)
            &&& (spec_classify_address(s, c) == Some(ExchangeWalletRole::Sweep) <==> !deposit && !hot
                && sweep)
            &&& (spec_classify_address(s, c) == Some(ExchangeWalletRole::Withdraw) <==> !deposit
                && !hot && !sweep && withdraw)
            &&& (spec_classify_address(s, c) is None <==> !deposit && !hot && !sweep && !withdraw)
        }),
{
}


/// The `k`-th transfer is sent by `a` to a manual seed address.
pub open spec fn is_seed_send(ts: Seq<SimpleTransfer>, a: Seq<char>, k: int) -> bool {
    0 <= k < ts.len() && ts[k].from@ == a && is_seed_address(ts[k].to@)
}

/// `c` is the counterparty that the seed at `to` makes of a transfer seen in
/// block `block`: the seed's exchange and confidence, role `HOT`, one transfer.
pub open spec fn is_seed_counterparty(c: ExchangeCounterparty, to: Seq<char>, block: u64) -> bool {
    exists|i: int|
        0 <= i < manual_seed_table().len() && #[trigger] manual_seed_table()[i].0 == to && {
            let seed = manual_seed_table()[i];
            &&& c.address@ == to
            &&& c.exchange_name@ == seed_exchange_name(seed)
            &&& c.role@ == "HOT"@
            &&& c.confidence_bps == seed.2
            &&& c.last_seen_block == block
            &&& c.tx_count == 1
        }
}

/// `c` comes from the first transfer that `a` sends to a seed.
pub open spec fn is_first_seed_counterparty(
    c: ExchangeCounterparty,
    ts: Seq<SimpleTransfer>,
    a: Seq<char>,
    block: u64,
) -> bool {
    exists|k: int|
        #[trigger] is_seed_send(ts, a, k) && (forall|j: int| 0 <= j < k ==> !is_seed_send(ts, a, j))
            && is_seed_counterparty(c, ts[k].to@, block)
}

/// The exchange hot wallet that `address` sends to in the current block, found
/// among the manual seeds: the receiver of the first such transfer.
pub fn current_seed_exchange_counterparty(
    address: &str,
    block_number: u64,
    transfers: &[SimpleTransfer],
) -> (r: Option<ExchangeCounterparty>)
    ensures
        match r {
            Some(c) => is_first_seed_counterparty(c, transfers@, address@, block_number),
            None => forall|k: int| !is_seed_send(transfers@, address@, k),
        },
{
    let ghost ts = transfers@;
    let mut k: usize = 0;
    while k < transfers.len()
        invariant
            ts == transfers@,
            k <= ts.len(),
            forall|j: int| 0 <= j < k ==> !is_seed_send(ts, address@, j),
        decreases transfers.len() - k,
    {
        let t = &transfers[k];
        if str_eq(t.from.as_str(), address) {
            match detect_exchange(t.to.as_str()) {
                Some(seed) => {
                    if is_exchange_counterparty_role(seed.role.as_str()) {
                        let c = ExchangeCounterparty {
                            address: t.to.clone(),
                            exchange_name: seed.exchange_name,
                            role: seed.role,
                            confidence_bps: seed.confidence_bps,
                            last_seen_block: block_number,
                            tx_count: 1,
                        };
                        assert(is_seed_send(ts, address@, k as int));
                        assert(is_seed_counterparty(c, ts[k as int].to@, block_number));
                        return Some(c);
                    }
                    assert(false);
                },
                None => {},
            }
        }
        k = k + 1;
    }
    None
}

/// `x` sends or receives one of the transfers.
pub open spec fn takes_part(ts: Seq<SimpleTransfer>, x: Seq<char>) -> bool {
    exists|k: int| #![trigger ts[k]] 0 <= k < ts.len() && (ts[k].from@ == x || ts[k].to@ == x)
}

/// Every address that sends or receives one of the transfers, once each, in
/// order of first appearance.
pub fn candidate_addresses(transfers: &[SimpleTransfer]) -> (r: Vec<String>)
    ensures
        is_set_of(r@, |x: Seq<char>| takes_part(transfers@, x)),
{
    let ghost ts = transfers@;
    let mut r: Vec<String> = Vec::new();
    let mut i: usize = 0;
    while i < transfers.len()
        invariant
            ts == transfers@,
            i <= ts.len(),
            views(r@).no_duplicates(),
            forall|x: Seq<char>| #[trigger] views(r@).contains(x) <==> takes_part(ts.take(i as int), x),
        decreases transfers.len() - i,
    {
        let t = &transfers[i];
        insert_distinct(&mut r, &t.from);
        insert_distinct(&mut r, &t.to);
        proof {
            let p = ts.take(i as int);
            let q = ts.take(i + 1);
            assert forall|x: Seq<char>| takes_part(q, x) <==> (takes_part(p, x) || x == t.from@ || x
                == t.to@) by {
                if takes_part(q, x) {
                    let k = choose|k: int| #![trigger q[k]] 0 <= k < q.len() && (q[k].from@ == x || q[k].to@ == x);
                    if k < i {
                        assert(p[k] == q[k]);
                    }
                }
                if takes_part(p, x) {
                    let k = choose|k: int| #![trigger p[k]] 0 <= k < p.len() && (p[k].from@ == x || p[k].to@ == x);
                    assert(q[k] == p[k]);
                }
                if x == t.from@ || x == t.to@ {
                    assert(q[i as int] == *t);
                }
            }
        }
        i = i + 1;
    }
    assert(ts.take(ts.len() as int) =~= ts);
    r
}

/// A deposit wallet's link to the exchange wallet it sweeps to.
#[derive(Debug, Clone)]
pub struct DepositLink {
    pub hot_wallet: String,
    pub detection_method: String,
}

/// An address found to be an exchange wallet (its confidence is computed apart).
#[derive(Debug, Clone)]
pub struct AddressDetection {
    pub address: String,
    pub exchange_name: String,
    pub entity_id: String,
    pub role: String,
    pub detection_source: String,
    pub first_seen_block: u64,
    pub last_seen_block: u64,
    pub cluster_id: String,
    pub discovered_from: String,
    pub deposit: Option<DepositLink>,
}

/// The fields of a detection: its exchange's entity id serves both as the
/// address's entity and as the cluster.
pub open spec fn is_detection(
    d: AddressDetection,
    address: Seq<char>,
    exchange_name: Seq<char>,
    role: Seq<char>,
    source: Seq<char>,
    first: u64,
    last: u64,
    discovered_from: Seq<char>,
) -> bool {
    &&& d.address@ == address
    &&& d.exchange_name@ == exchange_name
    &&& d.entity_id@ == spec_exchange_entity_id(exchange_name)
    &&& d.role@ == role
    &&& d.detection_source@ == source
    &&& d.first_seen_block == first
    &&& d.last_seen_block == last
    &&& d.cluster_id@ == spec_exchange_entity_id(exchange_name)
    &&& d.discovered_from@ == discovered_from
}

/// The role that the heuristics give an address, tried in this order: deposit
/// wallet of the counterparty's exchange, hot wallet, sweep wallet, withdraw wallet.
pub open spec fn spec_classify_address(s: AddressStats, c: Option<ExchangeCounterparty>) -> Option<
    ExchangeWalletRole,
> {
    if c is Some && spec_is_probable_deposit(s, c->0) {
        Some(ExchangeWalletRole::Deposit)
    } else if spec_is_probable_hot_wallet(s) {
        Some(ExchangeWalletRole::Hot)
    } else if spec_is_probable_sweep_wallet(s) {
        Some(ExchangeWalletRole::Sweep)
    } else if spec_is_probable_withdraw_wallet(s) {
        Some(ExchangeWalletRole::Withdraw)
    } else {
        None
    }
}

/// How a deposit wallet was found: `swept_to_<role in lower case>_<transfers>`.
pub open spec fn deposit_method(c: ExchangeCounterparty) -> Seq<char> {
    "swept_to_"@ + spec_ascii_lower_seq(c.role@) + "_"@ + spec_decimal(c.tx_count as nat)
}

/// The name under which wallets of an exchange not yet known are filed.
pub open spec fn unknown_exchange() -> Seq<char> {
    "UnknownExchange"@
}

/// The detection that the heuristics make of `a` in role `k`.
pub open spec fn is_heuristic_detection(
    d: AddressDetection,
    a: Seq<char>,
    s: AddressStats,
    c: Option<ExchangeCounterparty>,
    k: ExchangeWalletRole,
) -> bool {
    match k {
        ExchangeWalletRole::Deposit => {
            &&& c is Some
            &&& is_detection(
                d,
                a,
                c->0.exchange_name@,
                "DEPOSIT"@,
                "deposit_sweep_to_exchange_wallet"@,
                s.first_seen_block,
                if c->0.last_seen_block > s.last_seen_block {
                    c->0.last_seen_block
                } else {
                    s.last_seen_block
                },
                c->0.address@,
            )
            &&& d.deposit matches Some(l) && l.hot_wallet@ == c->0.address@ && l.detection_method@
                == deposit_method(c->0)
        },
        ExchangeWalletRole::Hot => {
            &&& is_detection(
                d,
                a,
                unknown_exchange(),
                "HOT"@,
                "high_fan_in_and_fan_out_exchange_hot_wallet"@,
                s.first_seen_block,
                s.last_seen_block,
                "fan_in_fan_out"@,
            )
            &&& d.deposit is None
        },
        ExchangeWalletRole::Sweep => {
            &&& is_detection(
                d,
                a,
                unknown_exchange(),
                "SWEEP"@,
                "many_deposit_wallets_to_one_sweeper"@,
                s.first_seen_block,
                s.last_seen_block,
                "inbound_fan_in"@,
            )
            &&& d.deposit is None
        },
        ExchangeWalletRole::Withdraw => {
            &&& is_detection(
                d,
                a,
                unknown_exchange(),
                "WITHDRAW"@,
                "one_wallet_to_many_withdrawals"@,
                s.first_seen_block,
                s.last_seen_block,
                "outbound_fan_out"@,
            )
            &&& d.deposit is None
        },
        _ => false,
    }
}

fn detection(
    address: &str,
    exchange_name: &str,
    role: ExchangeWalletRole,
    source: &str,
    first: u64,
    last: u64,
    discovered_from: &str,
    deposit: Option<DepositLink>,
) -> (d: AddressDetection)
    ensures
        is_detection(d, address@, exchange_name@, role.spec_name(), source@, first, last, discovered_from@),
        d.deposit == deposit,
{
    AddressDetection {
        address: owned(address),
        exchange_name: owned(exchange_name),
        entity_id: exchange_entity_id(exchange_name),
        role: role.to_string(),
        detection_source: owned(source),
        first_seen_block: first,
        last_seen_block: last,
        cluster_id: exchange_entity_id(exchange_name),
        discovered_from: owned(discovered_from),
        deposit,
    }
}

/// The heuristic classification of an address that is not a seed, from its
/// statistics and the exchange wallet it sends to (if one was found), with the
/// detection it gives; `None` when no heuristic applies.
pub fn heuristic_detection(
    address: &str,
    stats: &AddressStats,
    counterparty: &Option<ExchangeCounterparty>,
) -> (r: Option<(ExchangeWalletRole, AddressDetection)>)
    ensures
        match r {
            None => spec_classify_address(*stats, *counterparty) is None,
            Some((k, d)) => spec_classify_address(*stats, *counterparty) == Some(k)
                && is_heuristic_detection(d, address@, *stats, *counterparty, k),
        },
{
    match counterparty {
        Some(c) => {
            if is_probable_deposit(stats, c) {
                let last = if c.last_seen_block > stats.last_seen_block {
                    c.last_seen_block
                } else {
                    stats.last_seen_block
                };
                let lower = to_ascii_lowercase(c.role.as_str());
                let count = decimal_string(c.tx_count);
                let mut method = concat3("swept_to_", lower.as_str(), "_");
                method.append(count.as_str());
                let link = DepositLink { hot_wallet: c.address.clone(), detection_method: method };
                let d = detection(
                    address,
                    c.exchange_name.as_str(),
                    ExchangeWalletRole::Deposit,
                    "deposit_sweep_to_exchange_wallet",
                    stats.first_seen_block,
                    last,
                    c.address.as_str(),
                    Some(link),
                );
                return Some((ExchangeWalletRole::Deposit, d));
            }
        },
        None => {},
    }
    if is_probable_hot_wallet(stats) {
        let d = detection(
            address,
            "UnknownExchange",
            ExchangeWalletRole::Hot,
            "high_fan_in_and_fan_out_exchange_hot_wallet",
            stats.first_seen_block,
            stats.last_seen_block,
            "fan_in_fan_out",
            None,
        );
        return Some((ExchangeWalletRole::Hot, d));
    }
    if is_probable_sweep_wallet(stats) {
        let d = detection(
            address,
            "UnknownExchange",
            ExchangeWalletRole::Sweep,
            "many_deposit_wallets_to_one_sweeper",
            stats.first_seen_block,
            stats.last_seen_block,
            "inbound_fan_in",
            None,
        );
        return Some((ExchangeWalletRole::Sweep, d));
    }
    if is_probable_withdraw_wallet(stats) {
        let d = detection(
            address,
            "UnknownExchange",
            ExchangeWalletRole::Withdraw,
            "one_wallet_to_many_withdrawals",
            stats.first_seen_block,
            stats.last_seen_block,
            "outbound_fan_out",
            None,
        );
        return Some((ExchangeWalletRole::Withdraw, d));
    }
    None
}

/// The detection of a seed address in the current block: the seed's exchange,
/// role and source, seen first and last in this block, in the seed's cluster
/// (or its exchange's entity when it names none), discovered from `seed`.
pub fn seed_detection(address: &str, seed: &ExchangeAttribution, block_number: u64) -> (d:
    AddressDetection)
    ensures
        d.address@ == address@,
        d.exchange_name@ == seed.exchange_name@,
        d.entity_id@ == spec_exchange_entity_id(seed.exchange_name@),
        d.role@ == seed.role@,
        d.detection_source@ == seed.detection_source@,
        d.first_seen_block == block_number,
        d.last_seen_block == block_number,
        d.cluster_id@ == match seed.cluster_id {
            Some(c) => c@,
            None => spec_exchange_entity_id(seed.exchange_name@),
        },
        d.discovered_from@ == "seed"@,
        d.deposit is None,
{
    let cluster_id = match &seed.cluster_id {
        Some(c) => c.clone(),
        None => exchange_entity_id(seed.exchange_name.as_str()),
    };
    AddressDetection {
        address: owned(address),
        exchange_name: seed.exchange_name.clone(),
        entity_id: exchange_entity_id(seed.exchange_name.as_str()),
        role: seed.role.clone(),
        detection_source: seed.detection_source.clone(),
        first_seen_block: block_number,
        last_seen_block: block_number,
        cluster_id,
        discovered_from: owned("seed"),
        deposit: None,
    }
}

/// The key under which a detection is recorded once: `address:role`.
pub open spec fn detection_key(d: AddressDetection) -> Seq<char> {
    d.address@ + ":"@ + d.role@
}

/// Records a detection unless one with the same address and role was recorded.
pub fn push_detection(
    detections: &mut Vec<AddressDetection>,
    seen: &mut Vec<String>,
    d: AddressDetection,
) -> (added: bool)
    requires
        views(old(seen)@).no_duplicates(),
    ensures
        views(final(seen)@).no_duplicates(),
        added == !views(old(seen)@).contains(detection_key(d)),
        forall|y: Seq<char>| #[trigger]
            views(final(seen)@).contains(y) <==> (views(old(seen)@).contains(y) || y == detection_key(
                d,
            )),
        final(detections)@ == if added {
            old(detections)@.push(d)
        } else {
            old(detections)@
        },
{
    let key = concat3(d.address.as_str(), ":", d.role.as_str());
    if !insert_distinct(seen, &key) {
        return false;
    }
    detections.push(d);
    true
}

/// The attribution a deposit heuristic gives: role `DEPOSIT`, confidence
/// 6 500 basis points, source `deposit_heuristic`, no cluster.
pub fn build_deposit_attribution(exchange_name: &str) -> (a: ExchangeAttribution)
    ensures
        a.exchange_name@ == exchange_name@,
        a.role@ == "DEPOSIT"@,
        a.confidence_bps == 6500,
        a.detection_source@ == "deposit_heuristic"@,
        a.cluster_id is None,
{
    ExchangeAttribution {
        exchange_name: owned(exchange_name),
        role: ExchangeWalletRole::Deposit.to_string(),
        confidence_bps: 6500,
        detection_source: owned("deposit_heuristic"),
        cluster_id: None,
    }
}

/// The receivers of the transfers that `address` sends, in order (with repeats).
pub fn outgoing_receivers(address: &str, transfers: &[SimpleTransfer]) -> (r: Vec<String>)
    ensures
        views(r@) == views(receivers_from(transfers@, address@)),
{
    let a = owned(address);
    receivers_from_wallet(transfers, &a)
}

/// The counterparty that a stored attribution of `to` makes of a transfer seen
/// in block `block_number`: its exchange, role and confidence, one transfer;
/// `None` unless the role is `HOT`, `SWEEP`, `TREASURY` or `INTERNAL`.
pub fn counterparty_from_attribution(
    to: &str,
    attribution: &ExchangeAttribution,
    block_number: u64,
) -> (r: Option<ExchangeCounterparty>)
    ensures
        match r {
            Some(c) => {
                &&& spec_is_exchange_counterparty_role(attribution.role@)
                &&& c.address@ == to@
                &&& c.exchange_name@ == attribution.exchange_name@
                &&& c.role@ == attribution.role@
                &&& c.confidence_bps == attribution.confidence_bps
                &&& c.last_seen_block == block_number
                &&& c.tx_count == 1
            },
            None => !spec_is_exchange_counterparty_role(attribution.role@),
        },
{
    if is_exchange_counterparty_role(attribution.role.as_str()) {
        Some(
            ExchangeCounterparty {
                address: owned(to),
                exchange_name: attribution.exchange_name.clone(),
                role: attribution.role.clone(),
                confidence_bps: attribution.confidence_bps,
                last_seen_block: block_number,
                tx_count: 1,
            },
        )
    } else {
        None
    }
}

/// `c` is the counterparty that the seed at `row.0` makes of a row of recent
/// transfers to it (address, first block, last block, count): the seed's
/// exchange and confidence, role `HOT`, the row's last block and count.
pub open spec fn is_seed_row_counterparty(c: ExchangeCounterparty, row: (String, u64, u64, u64)) -> bool {
    exists|i: int|
        0 <= i < manual_seed_table().len() && #[trigger] manual_seed_table()[i].0 == row.0@ && {
            let seed = manual_seed_table()[i];
            &&& c.address@ == row.0@
            &&& c.exchange_name@ == seed_exchange_name(seed)
            &&& c.role@ == "HOT"@
            &&& c.confidence_bps == seed.2
            &&& c.last_seen_block == row.2
            &&& c.tx_count == row.3
        }
}

/// `c` comes from the first row whose address is a manual seed.
pub open spec fn is_first_seed_row_counterparty(c: ExchangeCounterparty, rows: Seq<(String, u64, u64, u64)>) -> bool {
    exists|k: int|
        0 <= k < rows.len() && #[trigger] is_seed_address(rows[k].0@) && (forall|j: int|
            0 <= j < k ==> !is_seed_address(#[trigger] rows[j].0@)) && is_seed_row_counterparty(c, rows[k])
}

/// The exchange hot wallet among the recent receivers of an address: the
/// first row (receiver, first block, last block, count) whose receiver is a
/// manual seed, as a counterparty; `None` when no row is.
pub fn seed_counterparty_from_rows(rows: &[(String, u64, u64, u64)]) -> (r: Option<ExchangeCounterparty>)
    ensures
        match r {
            Some(c) => is_first_seed_row_counterparty(c, rows@),
            None => forall|k: int| 0 <= k < rows@.len() ==> !is_seed_address(#[trigger] rows@[k].0@),
        },
{
    let mut k: usize = 0;
    while k < rows.len()
        invariant
            k <= rows@.len(),
            forall|j: int| 0 <= j < k ==> !is_seed_address(#[trigger] rows@[j].0@),
        decreases rows.len() - k,
    {
        let row = &rows[k];
        match detect_exchange(row.0.as_str()) {
            Some(seed) => {
                let c = ExchangeCounterparty {
                    address: row.0.clone(),
                    exchange_name: seed.exchange_name,
                    role: seed.role,
                    confidence_bps: seed.confidence_bps,
                    last_seen_block: row.2,
                    tx_count: row.3,
                };
                proof {
                    let i = choose|i: int|
                        0 <= i < manual_seed_table().len() && #[trigger] manual_seed_table()[i].0 == row.0@
                            && is_seed_attribution(seed, manual_seed_table()[i]);
                    assert(is_seed_address(rows@[k as int].0@));
                    assert(is_seed_row_counterparty(c, rows@[k as int]));
                }
                return Some(c);
            },
            None => {},
        }
        k = k + 1;
    }
    None
}

/// Law (seed lookups agree with the seed list): for every address in the
/// list of seeds, the attribution that the lookup gives has the same exchange,
/// role, confidence, source and cluster as the one the list holds.
pub proof fn lemma_seed_lookup_agrees_with_seed_list(
    seeds: Seq<(String, ExchangeAttribution)>,
    i: int,
    found: ExchangeAttribution,
)
    requires
        is_seed_list(seeds, manual_seed_table()),
        0 <= i < seeds.len(),
        is_seed_attribution_at(found, seeds[i].0@),
    ensures
        found.exchange_name@ == seeds[i].1.exchange_name@,
        found.role@ == seeds[i].1.role@,
        found.confidence_bps == seeds[i].1.confidence_bps,
        found.detection_source@ == seeds[i].1.detection_source@,
        found.cluster_id matches Some(c) && seeds[i].1.cluster_id matches Some(d) && c@ == d@,
{
    lemma_manual_seed_addresses_distinct();
    let j = choose|j: int|
        0 <= j < manual_seed_table().len() && #[trigger] manual_seed_table()[j].0 == seeds[i].0@
            && is_seed_attribution(found, manual_seed_table()[j]);
    assert(seeds[i].0@ == manual_seed_table()[i].0);
    if j != i {
        if j < i {
            assert(manual_seed_table()[j].0 != manual_seed_table()[i].0);
        } else {
            assert(manual_seed_table()[i].0 != manual_seed_table()[j].0);
        }
    }
}

} // verus!
