//! Exchange cluster expansion around a seed wallet.
use vstd::prelude::*;

use crate::aml::heuristics::{receiver_strings, receivers_of};
use crate::aml::types::SimpleTransfer;
use crate::text::{
    concat2, count_distinct, distinct_count, insert_distinct, is_tally_of, occurrences, same, tally, tally_has, views, Tally,
};

verus! {

/// The wallets discovered around a seed: probable sweepers (many distinct
/// senders), the deposit wallets that feed them, and the seed's direct
/// neighbours. Each list holds distinct addresses.
#[derive(Debug, Clone)]
pub struct ClusterExpansionResult {
    pub cluster_id: String,
    pub discovered_wallets: Vec<String>,
    pub sweeper_wallets: Vec<String>,
    pub deposit_wallets: Vec<String>,
}

/// The senders of the transfers that `w` receives, in order (with repeats).
pub open spec fn senders_to(ts: Seq<SimpleTransfer>, w: Seq<char>) -> Seq<String>
    decreases ts.len(),
{
    if ts.len() == 0 {
        Seq::empty()
    } else {
        senders_to(ts.drop_last(), w) + (if ts.last().to@ == w {
            seq![ts.last().from]
        } else {
            Seq::empty()
        })
    }
}

/// `w` receives from at least ten different senders.
pub open spec fn is_cluster_sweeper(ts: Seq<SimpleTransfer>, w: Seq<char>) -> bool {
    distinct_count(senders_to(ts, w)) >= 10
}

/// Some transfer of `ts` goes from `s` to `w`.
pub open spec fn sends_to(ts: Seq<SimpleTransfer>, s: Seq<char>, w: Seq<char>) -> bool {
    exists|k: int| 0 <= k < ts.len() && #[trigger] ts[k].from@ == s && ts[k].to@ == w
}

/// `s` sends to some probable sweeper.
pub open spec fn is_cluster_deposit(ts: Seq<SimpleTransfer>, s: Seq<char>) -> bool {
    exists|w: Seq<char>| #[trigger] is_cluster_sweeper(ts, w) && sends_to(ts, s, w)
}

/// `x` sent to or received from `seed` directly.
pub open spec fn is_seed_neighbour(ts: Seq<SimpleTransfer>, seed: Seq<char>, x: Seq<char>) -> bool {
    sends_to(ts, seed, x) || sends_to(ts, x, seed)
}

/// `xs` holds each address satisfying a predicate, exactly once.
pub open spec fn is_set_of(xs: Seq<String>, pred: spec_fn(Seq<char>) -> bool) -> bool {
    &&& views(xs).no_duplicates()
    &&& forall|x: Seq<char>| #[trigger] views(xs).contains(x) <==> pred(x)
}

pub(crate) proof fn lemma_senders_to(ts: Seq<SimpleTransfer>, w: Seq<char>, s: Seq<char>)
    ensures
        views(senders_to(ts, w)).contains(s) <==> sends_to(ts, s, w),
        senders_to(ts, w).len() > 0 ==> exists|k: int| 0 <= k < ts.len() && #[trigger] ts[k].to@ == w,
    decreases ts.len(),
{
    if ts.len() > 0 {
        let n = ts.len() - 1;
        let p = ts.drop_last();
        lemma_senders_to(p, w, s);
        assert(ts.take(n + 1) =~= ts);
        assert(ts.take(n) =~= p);
        lemma_sends_to_step(ts, n, s, w);
        if ts.last().to@ == w {
            assert(views(senders_to(ts, w)) =~= views(senders_to(p, w)).push(ts.last().from@));
            crate::text::lemma_push_contains(views(senders_to(p, w)), ts.last().from@);
            assert(ts[n].to@ == w);
        } else {
            assert(senders_to(ts, w) =~= senders_to(p, w));
            if senders_to(p, w).len() > 0 {
                let k = choose|k: int| 0 <= k < p.len() && #[trigger] p[k].to@ == w;
                assert(ts[k] == p[k]);
            }
        }
    }
}

/// The senders of the transfers received by `w`.
pub(crate) fn senders_to_wallet(transfers: &[SimpleTransfer], w: &String) -> (r: Vec<String>)
    ensures
        views(r@) == views(senders_to(transfers@, w@)),
{
    let mut r: Vec<String> = Vec::new();
    let mut k: usize = 0;
    while k < transfers.len()
        invariant
            k <= transfers@.len(),
            views(r@) == views(senders_to(transfers@.take(k as int), w@)),
        decreases transfers.len() - k,
    {
        let ghost r0 = r@;
        let t = &transfers[k];
        assert(transfers@.take(k + 1).drop_last() =~= transfers@.take(k as int));
        assert(transfers@.take(k + 1).last() == *t);
        if same(&t.to, w) {
            r.push(t.from.clone());
            assert(views(r@) =~= views(r0).push(t.from@));
            assert(views(r@) =~= views(senders_to(transfers@.take(k + 1), w@)));
        } else {
            assert(views(r@) =~= views(senders_to(transfers@.take(k + 1), w@)));
        }
        k = k + 1;
    }
    assert(transfers@.take(transfers@.len() as int) =~= transfers@);
    r
}

proof fn lemma_distinct_count_views(xs: Seq<String>, ys: Seq<String>)
    requires
        views(xs) == views(ys),
    ensures
        distinct_count(xs) == distinct_count(ys),
{
}

/// Sweepers are wallets receiving from ten or more different senders; their
/// senders are deposit wallets; the seed's direct neighbours are discovered too.
/// The cluster is named `"cluster:" + seed_wallet`.
pub fn expand_exchange_cluster(seed_wallet: &str, transfers: &[SimpleTransfer]) -> (result:
    ClusterExpansionResult)
    ensures
        result.cluster_id@ == "cluster:"@ + seed_wallet@,
        is_set_of(result.sweeper_wallets@, |x: Seq<char>| is_cluster_sweeper(transfers@, x)),
        is_set_of(result.deposit_wallets@, |x: Seq<char>| is_cluster_deposit(transfers@, x)),
        is_set_of(
            result.discovered_wallets@,
            |x: Seq<char>|
                is_cluster_sweeper(transfers@, x) || is_cluster_deposit(transfers@, x)
                    || is_seed_neighbour(transfers@, seed_wallet@, x),
        ),
{
    let ghost ts = transfers@;
    let seed = crate::text::owned(seed_wallet);
    let mut discovered: Vec<String> = Vec::new();
    let mut sweepers: Vec<String> = Vec::new();
    let mut deposits: Vec<String> = Vec::new();
    let receivers = receivers_of(transfers);
    let t: Vec<Tally> = tally(&receivers);
    let mut i: usize = 0;
    while i < t.len()
        invariant
            ts == transfers@,
            i <= t@.len(),
            is_tally_of(t@, receivers@),
            views(receivers@) == views(receiver_strings(ts)),
            views(sweepers@).no_duplicates(),
            views(deposits@).no_duplicates(),
            views(discovered@).no_duplicates(),
            forall|x: Seq<char>| #[trigger]
                views(sweepers@).contains(x) <==> exists|q: int|
                    #![trigger t@[q]]
                    0 <= q < i && t@[q].key@ == x && is_cluster_sweeper(ts, x),
            forall|x: Seq<char>| #[trigger]
                views(deposits@).contains(x) <==> exists|q: int|
                    #![trigger t@[q]]
                    0 <= q < i && is_cluster_sweeper(ts, t@[q].key@) && sends_to(ts, x, t@[q].key@),
            forall|x: Seq<char>| #[trigger]
                views(discovered@).contains(x) <==> (views(sweepers@).contains(x) || views(
                    deposits@,
                ).contains(x)),
        decreases t.len() - i,
    {
        let receiver = &t[i].key;
        let senders = senders_to_wallet(transfers, receiver);
        let unique = count_distinct(senders.as_slice());
        proof {
            lemma_distinct_count_views(senders@, senders_to(ts, receiver@));
        }
        let ghost sw0 = sweepers@;
        let ghost de0 = deposits@;
        let ghost di0 = discovered@;
        if unique >= 10 {
            insert_distinct(&mut sweepers, receiver);
            insert_distinct(&mut discovered, receiver);
            let mut j: usize = 0;
            while j < senders.len()
                invariant
                    ts == transfers@,
                    i < t@.len(),
                    *receiver == t@[i as int].key,
                    is_cluster_sweeper(ts, receiver@),
                    views(senders@) == views(senders_to(ts, receiver@)),
                    j <= senders@.len(),
                    views(deposits@).no_duplicates(),
                    views(discovered@).no_duplicates(),
                    forall|x: Seq<char>| #[trigger]
                        views(deposits@).contains(x) <==> (views(de0).contains(x) || views(
                            senders@.take(j as int),
                        ).contains(x)),
                    forall|x: Seq<char>| #[trigger]
                        views(discovered@).contains(x) <==> (views(di0).contains(x) || x
                            == receiver@ || views(senders@.take(j as int)).contains(x)),
                decreases senders.len() - j,
            {
                insert_distinct(&mut deposits, &senders[j]);
                insert_distinct(&mut discovered, &senders[j]);
                proof {
                    assert(views(senders@.take(j + 1)) =~= views(senders@.take(j as int)).push(
                        senders@[j as int]@,
                    ));
                    crate::text::lemma_push_contains(views(senders@.take(j as int)), senders@[j as int]@);
                }
                j = j + 1;
            }
            proof {
                assert(senders@.take(senders@.len() as int) =~= senders@);
                assert forall|x: Seq<char>| #[trigger]
                    views(sweepers@).contains(x) <==> exists|q: int|
                        #![trigger t@[q]]
                        0 <= q < i + 1 && t@[q].key@ == x && is_cluster_sweeper(ts, x) by {
                    if views(sweepers@).contains(x) && x != receiver@ {
                        assert(views(sw0).to_set().contains(x));
                    }
                    if exists|q: int| #![trigger t@[q]] 0 <= q < i + 1 && t@[q].key@ == x && is_cluster_sweeper(ts, x) {
                        let q = choose|q: int| #![trigger t@[q]] 0 <= q < i + 1 && t@[q].key@ == x && is_cluster_sweeper(ts, x);
                        if q < i {
                            assert(views(sw0).contains(x));
                            assert(views(sw0).to_set().contains(x));
                        } else {
                            assert(views(sweepers@).to_set().contains(x));
                        }
                    }
                }
                assert forall|x: Seq<char>| #[trigger]
                    views(deposits@).contains(x) <==> exists|q: int|
                        #![trigger t@[q]]
                        0 <= q < i + 1 && is_cluster_sweeper(ts, t@[q].key@) && sends_to(
                            ts,
                            x,
                            t@[q].key@,
                        ) by {
                    lemma_senders_to(ts, receiver@, x);
                    if exists|q: int|
                        #![trigger t@[q]]
                        0 <= q < i + 1 && is_cluster_sweeper(ts, t@[q].key@) && sends_to(ts, x, t@[q].key@) {
                        let q = choose|q: int|
                            #![trigger t@[q]]
                             0 <= q < i + 1 && is_cluster_sweeper(ts, t@[q].key@) && sends_to(ts, x, t@[q].key@);
                        if q < i {
                            assert(views(de0).contains(x));
                        }
                    }
                    if views(de0).contains(x) {
                        let q = choose|q: int|
                            #![trigger t@[q]]
                             0 <= q < i && is_cluster_sweeper(ts, t@[q].key@) && sends_to(ts, x, t@[q].key@);
                        assert(0 <= q < i + 1);
                    }
                }
                assert forall|x: Seq<char>| #[trigger]
                    views(discovered@).contains(x) <==> (views(sweepers@).contains(x) || views(
                        deposits@,
                    ).contains(x)) by {
                    if x == receiver@ {
                        assert(views(sweepers@).to_set().contains(x));
                    }
                    if views(sweepers@).contains(x) && x != receiver@ {
                        assert(views(sweepers@).to_set().contains(x));
                        assert(views(sw0).to_set().contains(x));
                    }
                    if views(di0).contains(x) {
                        assert(views(sw0).contains(x) || views(de0).contains(x));
                        if views(sw0).contains(x) {
                            assert(views(sw0).to_set().contains(x));
                            assert(views(sweepers@).to_set().contains(x));
                        }
                    }
                    if views(sw0).contains(x) {
                        assert(views(di0).contains(x));
                    }
                }
            }
        } else {
            proof {
                assert forall|x: Seq<char>| #[trigger]
                    views(sweepers@).contains(x) <==> exists|q: int|
                        #![trigger t@[q]]
                        0 <= q < i + 1 && t@[q].key@ == x && is_cluster_sweeper(ts, x) by {
                    if exists|q: int| #![trigger t@[q]] 0 <= q < i + 1 && t@[q].key@ == x && is_cluster_sweeper(ts, x) {
                        let q = choose|q: int| #![trigger t@[q]] 0 <= q < i + 1 && t@[q].key@ == x && is_cluster_sweeper(ts, x);
                        if q == i {
                            assert(false);
                        }
                    }
                }
                assert forall|x: Seq<char>| #[trigger]
                    views(deposits@).contains(x) <==> exists|q: int|
                        #![trigger t@[q]]
                        0 <= q < i + 1 && is_cluster_sweeper(ts, t@[q].key@) && sends_to(
                            ts,
                            x,
                            t@[q].key@,
                        ) by {
                    if exists|q: int|
                        #![trigger t@[q]]
                        0 <= q < i + 1 && is_cluster_sweeper(ts, t@[q].key@) && sends_to(ts, x, t@[q].key@) {
                        let q = choose|q: int|
                            #![trigger t@[q]]
                             0 <= q < i + 1 && is_cluster_sweeper(ts, t@[q].key@) && sends_to(ts, x, t@[q].key@);
                        if q == i {
                            assert(false);
                        }
                    }
                }
            }
        }
        i = i + 1;
    }
    proof {
        assert forall|x: Seq<char>| #[trigger] views(sweepers@).contains(x) <==> is_cluster_sweeper(ts, x) by {
            if is_cluster_sweeper(ts, x) {
                lemma_receiver_of_sweeper(ts, x, receivers@, t@);
            }
        }
        assert forall|x: Seq<char>| #[trigger] views(deposits@).contains(x) <==> is_cluster_deposit(ts, x) by {
            if is_cluster_deposit(ts, x) {
                let w = choose|w: Seq<char>| #[trigger] is_cluster_sweeper(ts, w) && sends_to(ts, x, w);
                lemma_receiver_of_sweeper(ts, w, receivers@, t@);
                let q = choose|q: int| 0 <= q < t@.len() && #[trigger] t@[q].key@ == w;
            }
            if views(deposits@).contains(x) {
                let q = choose|q: int|
                    #![trigger t@[q]]
                     0 <= q < t@.len() && is_cluster_sweeper(ts, t@[q].key@) && sends_to(ts, x, t@[q].key@);
                assert(is_cluster_sweeper(ts, t@[q].key@) && sends_to(ts, x, t@[q].key@));
            }
        }
    }
    let ghost di1 = discovered@;
    let mut k: usize = 0;
    while k < transfers.len()
        invariant
            ts == transfers@,
            seed@ == seed_wallet@,
            k <= ts.len(),
            views(discovered@).no_duplicates(),
            forall|x: Seq<char>| #[trigger]
                views(discovered@).contains(x) <==> (views(di1).contains(x) || is_seed_neighbour(
                    ts.take(k as int),
                    seed@,
                    x,
                )),
        decreases transfers.len() - k,
    {
        let tr = &transfers[k];
        if same(&tr.from, &seed) {
            insert_distinct(&mut discovered, &tr.to);
        }
        if same(&tr.to, &seed) {
            insert_distinct(&mut discovered, &tr.from);
        }
        proof {
            let p0 = ts.take(k as int);
            let p1 = ts.take(k + 1);
            assert forall|x: Seq<char>| #[trigger]
                views(discovered@).contains(x) <==> (views(di1).contains(x) || is_seed_neighbour(
                    p1,
                    seed@,
                    x,
                )) by {
                lemma_sends_to_step(ts, k as int, seed@, x);
                lemma_sends_to_step(ts, k as int, x, seed@);
            }
        }
        k = k + 1;
    }
    proof {
        assert(ts.take(ts.len() as int) =~= ts);
    }
    let cluster_id = concat2("cluster:", seed_wallet);
    ClusterExpansionResult {
        cluster_id,
        discovered_wallets: discovered,
        sweeper_wallets: sweepers,
        deposit_wallets: deposits,
    }
}

proof fn lemma_sends_to_step(ts: Seq<SimpleTransfer>, k: int, s: Seq<char>, w: Seq<char>)
    requires
        0 <= k < ts.len(),
    ensures
        sends_to(ts.take(k + 1), s, w) <==> (sends_to(ts.take(k), s, w) || (ts[k].from@ == s
            && ts[k].to@ == w)),
{
    let p0 = ts.take(k);
    let p1 = ts.take(k + 1);
    if sends_to(p1, s, w) {
        let q = choose|q: int| 0 <= q < p1.len() && #[trigger] p1[q].from@ == s && p1[q].to@ == w;
        if q < k {
            assert(p0[q] == p1[q]);
        }
    }
    if sends_to(p0, s, w) {
        let q = choose|q: int| 0 <= q < p0.len() && #[trigger] p0[q].from@ == s && p0[q].to@ == w;
        assert(p1[q] == p0[q]);
    }
    if ts[k].from@ == s && ts[k].to@ == w {
        assert(p1[k] == ts[k]);
    }
}

proof fn lemma_receiver_of_sweeper(ts: Seq<SimpleTransfer>, w: Seq<char>, receivers: Seq<String>, t: Seq<Tally>)
    requires
        is_cluster_sweeper(ts, w),
        views(receivers) == views(receiver_strings(ts)),
        is_tally_of(t, receivers),
    ensures
        tally_has(t, w),
{
    assert(senders_to(ts, w).len() > 0) by {
        if senders_to(ts, w).len() == 0 {
            assert(views(senders_to(ts, w)).to_set() =~= Set::empty());
        }
    }
    lemma_senders_to(ts, w, Seq::empty());
    let k = choose|k: int| 0 <= k < ts.len() && #[trigger] ts[k].to@ == w;
    assert(views(receiver_strings(ts))[k] == w);
    assert(receivers.len() == views(receivers).len());
    assert(receivers[k]@ == views(receivers)[k]);
    lemma_occurrence_positive(receivers, w, k);
}

proof fn lemma_occurrence_positive(xs: Seq<String>, x: Seq<char>, k: int)
    requires
        0 <= k < xs.len(),
        xs[k]@ == x,
    ensures
        occurrences(xs, x) > 0,
    decreases xs.len(),
{
    if k < xs.len() - 1 {
        assert(xs.drop_last()[k] == xs[k]);
        lemma_occurrence_positive(xs.drop_last(), x, k);
    }
}

} // verus!
