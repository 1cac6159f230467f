//! Per-address profiles of a set of transfers: activity counts, volumes,
//! tokens, and the exchange heuristics they trigger.
use vstd::prelude::*;

use crate::aml::types::SimpleTransfer;
use crate::exchange::cluster_expander::{is_set_of, senders_to};
use crate::exchange::detector::{
    candidate_addresses, receivers_from, stats_with_current_transfers, takes_part, AddressStats,
};
use crate::exchange::heuristics::{inbound_count, outbound_count};
use crate::text::{distinct_count, insert_distinct, same, views};
use crate::aml::heuristics::{receiver_strings, sender_strings};

verus! {

/// What a set of transfers shows of one address. The lists of tokens holds
/// each token once.
#[derive(Debug, Clone)]
pub struct AddressProfile {
    pub address: String,
    pub total_in_tx: u64,
    pub total_out_tx: u64,
    pub unique_senders: u64,
    pub unique_receivers: u64,
    pub total_volume_in: u128,
    pub total_volume_out: u128,
    pub interacted_tokens: Vec<String>,
    pub probable_exchange: bool,
    pub probable_deposit_wallet: bool,
    pub probable_sweeper: bool,
}

/// The total amount that `a` receives.
pub open spec fn volume_in(ts: Seq<SimpleTransfer>, a: Seq<char>) -> nat
    decreases ts.len(),
{
    if ts.len() == 0 {
        0
    } else {
        volume_in(ts.drop_last(), a) + (if ts.last().to@ == a {
            ts.last().amount as nat
        } else {
            0
        })
    }
}

/// The total amount that `a` sends.
pub open spec fn volume_out(ts: Seq<SimpleTransfer>, a: Seq<char>) -> nat
    decreases ts.len(),
{
    if ts.len() == 0 {
        0
    } else {
        volume_out(ts.drop_last(), a) + (if ts.last().from@ == a {
            ts.last().amount as nat
        } else {
            0
        })
    }
}

/// `a` sends or receives a transfer of token `x`.
pub open spec fn touches_token(ts: Seq<SimpleTransfer>, a: Seq<char>, x: Seq<char>) -> bool {
    exists|k: int|
        0 <= k < ts.len() && (ts[k].from@ == a || ts[k].to@ == a) && #[trigger] ts[k].token@ == x
}

/// Every address's received and sent volumes fit in a `u128`.
pub open spec fn profile_volumes_fit(ts: Seq<SimpleTransfer>) -> bool {
    forall|a: Seq<char>| #[trigger] volume_in(ts, a) <= u128::MAX && volume_out(ts, a) <= u128::MAX
}

/// `p` is the profile of its address in `ts`: its counts of received and sent
/// transfers, of distinct senders and receivers, its volumes, its tokens, and
/// the heuristics: a sweeper receives from 100 or more senders in 500 or more
/// transfers, an exchange sends to 100 or more receivers in 500 or more
/// transfers, a deposit wallet receives 10 or more transfers and sends at most 3.
pub open spec fn is_profile_of(p: AddressProfile, ts: Seq<SimpleTransfer>) -> bool {
    let a = p.address@;
    &&& p.total_in_tx == inbound_count(ts, a)
    &&& p.total_out_tx == outbound_count(ts, a)
    &&& p.unique_senders == distinct_count(senders_to(ts, a))
    &&& p.unique_receivers == distinct_count(receivers_from(ts, a))
    &&& p.total_volume_in == volume_in(ts, a)
    &&& p.total_volume_out == volume_out(ts, a)
    &&& is_set_of(p.interacted_tokens@, |x: Seq<char>| touches_token(ts, a, x))
    &&& p.probable_sweeper == (p.unique_senders >= 100 && p.total_in_tx >= 500)
    &&& p.probable_exchange == (p.unique_receivers >= 100 && p.total_out_tx >= 500)
    &&& p.probable_deposit_wallet == (p.total_in_tx >= 10 && p.total_out_tx <= 3)
}

proof fn lemma_counts_bounded(ts: Seq<SimpleTransfer>, a: Seq<char>)
    ensures
        inbound_count(ts, a) <= ts.len(),
        outbound_count(ts, a) <= ts.len(),
        senders_to(ts, a).len() <= ts.len(),
        receivers_from(ts, a).len() <= ts.len(),
    decreases ts.len(),
{
    if ts.len() > 0 {
        lemma_counts_bounded(ts.drop_last(), a);
        assert(receiver_strings(ts).drop_last() =~= receiver_strings(ts.drop_last()));
        assert(sender_strings(ts).drop_last() =~= sender_strings(ts.drop_last()));
    }
}

proof fn lemma_volumes_monotone(ts: Seq<SimpleTransfer>, a: Seq<char>, k: int)
    requires
        0 <= k <= ts.len(),
    ensures
        volume_in(ts.take(k), a) <= volume_in(ts, a),
        volume_out(ts.take(k), a) <= volume_out(ts, a),
    decreases ts.len() - k,
{
    if k < ts.len() {
        lemma_volumes_monotone(ts, a, k + 1);
        assert(ts.take(k + 1).drop_last() =~= ts.take(k));
    } else {
        assert(ts.take(k) =~= ts);
    }
}

fn volumes_of(a: &String, transfers: &[SimpleTransfer]) -> (r: (u128, u128))
    requires
        volume_in(transfers@, a@) <= u128::MAX,
        volume_out(transfers@, a@) <= u128::MAX,
    ensures
        r.0 == volume_in(transfers@, a@),
        r.1 == volume_out(transfers@, a@),
{
    let ghost ts = transfers@;
    let mut vin: u128 = 0;
    let mut vout: u128 = 0;
    let mut k: usize = 0;
    while k < transfers.len()
        invariant
            ts == transfers@,
            k <= ts.len(),
            volume_in(ts, a@) <= u128::MAX,
            volume_out(ts, a@) <= u128::MAX,
            vin == volume_in(ts.take(k as int), a@),
            vout == volume_out(ts.take(k as int), a@),
        decreases transfers.len() - k,
    {
        let t = &transfers[k];
        proof {
            assert(ts.take(k + 1).drop_last() =~= ts.take(k as int));
            assert(ts.take(k + 1).last() == *t);
            lemma_volumes_monotone(ts, a@, k + 1);
        }
        if same(&t.to, a) {
            vin = vin + t.amount;
        }
        if same(&t.from, a) {
            vout = vout + t.amount;
        }
        k = k + 1;
    }
    assert(ts.take(ts.len() as int) =~= ts);
    (vin, vout)
}

fn tokens_of(a: &String, transfers: &[SimpleTransfer]) -> (r: Vec<String>)
    ensures
        is_set_of(r@, |x: Seq<char>| touches_token(transfers@, a@, x)),
{
    let ghost ts = transfers@;
    let mut r: Vec<String> = Vec::new();
    let mut k: usize = 0;
    while k < transfers.len()
        invariant
            ts == transfers@,
            k <= ts.len(),
            views(r@).no_duplicates(),
            forall|x: Seq<char>| #[trigger] views(r@).contains(x) <==> touches_token(ts.take(k as int), a@, x),
        decreases transfers.len() - k,
    {
        let t = &transfers[k];
        if same(&t.from, a) || same(&t.to, a) {
            insert_distinct(&mut r, &t.token);
        }
        proof {
            let p = ts.take(k as int);
            let q = ts.take(k + 1);
            assert forall|x: Seq<char>| #[trigger] views(r@).contains(x) <==> touches_token(q, a@, x) by {
                if touches_token(q, a@, x) {
                    let j = choose|j: int|
                        0 <= j < q.len() && (q[j].from@ == a@ || q[j].to@ == a@) && #[trigger] q[j].token@ == x;
                    if j < k {
                        assert(p[j] == q[j]);
                        assert(touches_token(p, a@, x));
                    } else {
                        assert(q[j] == *t);
                    }
                }
                if touches_token(p, a@, x) {
                    let j = choose|j: int|
                        0 <= j < p.len() && (p[j].from@ == a@ || p[j].to@ == a@) && #[trigger] p[j].token@ == x;
                    assert(q[j] == p[j]);
                }
                if (t.from@ == a@ || t.to@ == a@) && x == t.token@ {
                    assert(q[k as int] == *t);
                }
            }
        }
        k = k + 1;
    }
    assert(ts.take(ts.len() as int) =~= ts);
    r
}

fn profile_of(a: &String, transfers: &[SimpleTransfer]) -> (p: AddressProfile)
    requires
        profile_volumes_fit(transfers@),
    ensures
        p.address@ == a@,
        is_profile_of(p, transfers@),
{
    let ghost ts = transfers@;
    let n = transfers.len();
    assert(n as int <= u64::MAX);
    proof {
        lemma_counts_bounded(ts, a@);
        views(senders_to(ts, a@)).lemma_cardinality_of_set();
        views(receivers_from(ts, a@)).lemma_cardinality_of_set();
        assert(volume_in(ts, a@) <= u128::MAX);
    }
    let zero = AddressStats {
        inbound_txs: 0,
        outbound_txs: 0,
        unique_senders: 0,
        unique_receivers: 0,
        first_seen_block: 0,
        last_seen_block: 0,
    };
    let st = stats_with_current_transfers(zero, a.as_str(), 0, transfers);
    let (vin, vout) = volumes_of(a, transfers);
    let tokens = tokens_of(a, transfers);
    AddressProfile {
        address: a.clone(),
        total_in_tx: st.inbound_txs,
        total_out_tx: st.outbound_txs,
        unique_senders: st.unique_senders,
        unique_receivers: st.unique_receivers,
        total_volume_in: vin,
        total_volume_out: vout,
        interacted_tokens: tokens,
        probable_exchange: st.unique_receivers >= 100 && st.outbound_txs >= 500,
        probable_deposit_wallet: st.inbound_txs >= 10 && st.outbound_txs <= 3,
        probable_sweeper: st.unique_senders >= 100 && st.inbound_txs >= 500,
    }
}

/// One profile for each address that sends or receives a transfer, in order
/// of first appearance.
pub fn build_address_profiles(transfers: &[SimpleTransfer]) -> (r: Vec<AddressProfile>)
    requires
        profile_volumes_fit(transfers@),
    ensures
        is_set_of(
            r@.map_values(|p: AddressProfile| p.address),
            |x: Seq<char>| takes_part(transfers@, x),
        ),
        forall|i: int| 0 <= i < r@.len() ==> is_profile_of(#[trigger] r@[i], transfers@),
{
    let addresses = candidate_addresses(transfers);
    let mut r: Vec<AddressProfile> = Vec::new();
    let mut i: usize = 0;
    while i < addresses.len()
        invariant
            i <= addresses@.len(),
            profile_volumes_fit(transfers@),
            r@.len() == i,
            forall|j: int| 0 <= j < i ==> #[trigger] r@[j].address@ == addresses@[j]@,
            forall|j: int| 0 <= j < i ==> is_profile_of(#[trigger] r@[j], transfers@),
        decreases addresses.len() - i,
    {
        let p = profile_of(&addresses[i], transfers);
        r.push(p);
        i = i + 1;
    }
    assert(views(r@.map_values(|p: AddressProfile| p.address)) =~= views(addresses@));
    r
}

/// The received transfers counted over a sequence of profiles.
pub open spec fn sum_in_tx(ps: Seq<AddressProfile>) -> int
    decreases ps.len(),
{
    if ps.len() == 0 {
        0
    } else {
        sum_in_tx(ps.drop_last()) + ps.last().total_in_tx
    }
}

/// The sent transfers counted over a sequence of profiles.
pub open spec fn sum_out_tx(ps: Seq<AddressProfile>) -> int
    decreases ps.len(),
{
    if ps.len() == 0 {
        0
    } else {
        sum_out_tx(ps.drop_last()) + ps.last().total_out_tx
    }
}

spec fn count_equal(xs: Seq<Seq<char>>, x: Seq<char>) -> int
    decreases xs.len(),
{
    if xs.len() == 0 {
        0
    } else {
        count_equal(xs.drop_last(), x) + (if xs.last() == x {
            1int
        } else {
            0
        })
    }
}

spec fn sum_inbound(ts: Seq<SimpleTransfer>, xs: Seq<Seq<char>>) -> int
    decreases xs.len(),
{
    if xs.len() == 0 {
        0
    } else {
        sum_inbound(ts, xs.drop_last()) + inbound_count(ts, xs.last())
    }
}

spec fn sum_outbound(ts: Seq<SimpleTransfer>, xs: Seq<Seq<char>>) -> int
    decreases xs.len(),
{
    if xs.len() == 0 {
        0
    } else {
        sum_outbound(ts, xs.drop_last()) + outbound_count(ts, xs.last())
    }
}

proof fn lemma_count_equal_once(xs: Seq<Seq<char>>, x: Seq<char>)
    requires
        xs.no_duplicates(),
    ensures
        count_equal(xs, x) == if xs.contains(x) {
            1int
        } else {
            0
        },
    decreases xs.len(),
{
    if xs.len() > 0 {
        let p = xs.drop_last();
        assert(p.no_duplicates()) by {
            assert forall|i: int, j: int| 0 <= i < p.len() && 0 <= j < p.len() && i != j implies p[i]
                != p[j] by {
                assert(p[i] == xs[i] && p[j] == xs[j]);
            }
        }
        lemma_count_equal_once(p, x);
        if xs.last() == x {
            assert(!p.contains(x)) by {
                if p.contains(x) {
                    let i = choose|i: int| 0 <= i < p.len() && p[i] == x;
                    assert(xs[i] == xs[xs.len() - 1]);
                }
            }
        }
        assert(xs.contains(x) <==> (p.contains(x) || xs.last() == x)) by {
            if xs.contains(x) {
                let i = choose|i: int| 0 <= i < xs.len() && xs[i] == x;
                if i < xs.len() - 1 {
                    assert(p[i] == x);
                }
            }
            if p.contains(x) {
                let i = choose|i: int| 0 <= i < p.len() && p[i] == x;
                assert(xs[i] == x);
            }
        }
    }
}

proof fn lemma_sum_step(ts: Seq<SimpleTransfer>, xs: Seq<Seq<char>>)
    requires
        ts.len() > 0,
    ensures
        sum_inbound(ts, xs) == sum_inbound(ts.drop_last(), xs) + count_equal(xs, ts.last().to@),
        sum_outbound(ts, xs) == sum_outbound(ts.drop_last(), xs) + count_equal(xs, ts.last().from@),
    decreases xs.len(),
{
    assert(receiver_strings(ts).drop_last() =~= receiver_strings(ts.drop_last()));
    assert(sender_strings(ts).drop_last() =~= sender_strings(ts.drop_last()));
    if xs.len() > 0 {
        lemma_sum_step(ts, xs.drop_last());
    }
}

proof fn lemma_sums_count_transfers(ts: Seq<SimpleTransfer>, xs: Seq<Seq<char>>)
    requires
        xs.no_duplicates(),
        forall|k: int| 0 <= k < ts.len() ==> xs.contains(#[trigger] ts[k].to@) && xs.contains(ts[k].from@),
    ensures
        sum_inbound(ts, xs) == ts.len(),
        sum_outbound(ts, xs) == ts.len(),
    decreases ts.len(),
{
    if ts.len() == 0 {
        lemma_sums_empty(ts, xs);
    } else {
        let p = ts.drop_last();
        assert forall|k: int| 0 <= k < p.len() implies xs.contains(#[trigger] p[k].to@) && xs.contains(
            p[k].from@,
        ) by {
            assert(p[k] == ts[k]);
        }
        lemma_sums_count_transfers(p, xs);
        lemma_sum_step(ts, xs);
        assert(ts.last() == ts[ts.len() - 1]);
        lemma_count_equal_once(xs, ts.last().to@);
        lemma_count_equal_once(xs, ts.last().from@);
    }
}

proof fn lemma_sums_empty(ts: Seq<SimpleTransfer>, xs: Seq<Seq<char>>)
    requires
        ts.len() == 0,
    ensures
        sum_inbound(ts, xs) == 0,
        sum_outbound(ts, xs) == 0,
    decreases xs.len(),
{
    if xs.len() > 0 {
        lemma_sums_empty(ts, xs.drop_last());
    }
}

proof fn lemma_profile_sums(ts: Seq<SimpleTransfer>, ps: Seq<AddressProfile>)
    requires
        forall|i: int| 0 <= i < ps.len() ==> is_profile_of(#[trigger] ps[i], ts),
    ensures
        sum_in_tx(ps) == sum_inbound(ts, views(ps.map_values(|p: AddressProfile| p.address))),
        sum_out_tx(ps) == sum_outbound(ts, views(ps.map_values(|p: AddressProfile| p.address))),
    decreases ps.len(),
{
    if ps.len() > 0 {
        let q = ps.drop_last();
        assert forall|i: int| 0 <= i < q.len() implies is_profile_of(#[trigger] q[i], ts) by {
            assert(q[i] == ps[i]);
        }
        lemma_profile_sums(ts, q);
        let a = views(ps.map_values(|p: AddressProfile| p.address));
        assert(a.drop_last() =~= views(q.map_values(|p: AddressProfile| p.address)));
        assert(is_profile_of(ps[ps.len() - 1], ts));
    }
}

/// Law (profiles account for every transfer): over the profiles of a set of
/// transfers, the received counts and the sent counts each add up to the
/// number of transfers, since each transfer has one sender and one receiver.
pub proof fn lemma_profiles_count_each_transfer(ts: Seq<SimpleTransfer>, ps: Seq<AddressProfile>)
    requires
        is_set_of(ps.map_values(|p: AddressProfile| p.address), |x: Seq<char>| takes_part(ts, x)),
        forall|i: int| 0 <= i < ps.len() ==> is_profile_of(#[trigger] ps[i], ts),
    ensures
        sum_in_tx(ps) == ts.len(),
        sum_out_tx(ps) == ts.len(),
{
    let xs = views(ps.map_values(|p: AddressProfile| p.address));
    assert forall|k: int| 0 <= k < ts.len() implies xs.contains(#[trigger] ts[k].to@) && xs.contains(
        ts[k].from@,
    ) by {
        assert(takes_part(ts, ts[k].to@));
        assert(takes_part(ts, ts[k].from@));
    }
    lemma_sums_count_transfers(ts, xs);
    lemma_profile_sums(ts, ps);
}

} // verus!
