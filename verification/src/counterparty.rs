//! Counterparty relations: for every sender/receiver pair and token, an
//! outbound row for the sender and an inbound row for the receiver.
use vstd::prelude::*;

use crate::aml::types::SimpleTransfer;
use crate::text::{owned, same};

verus! {

/// Aggregated transfers between an address and one counterparty in one token
/// and one direction (`"out"` or `"in"`).
#[derive(Debug, Clone)]
pub struct CounterpartyRelation {
    pub address: String,
    pub counterparty: String,
    pub direction: String,
    pub token_address: String,
    pub total_txs: u64,
    pub total_volume: u128,
    pub first_seen: u64,
    pub last_seen: u64,
}

/// The identity of a relation: address, counterparty, direction, token.
pub open spec fn relation_key(r: CounterpartyRelation) -> (Seq<char>, Seq<char>, Seq<char>, Seq<char>) {
    (r.address@, r.counterparty@, r.direction@, r.token_address@)
}

/// Transfer `t` moves token `tok` from `a` to `b`.
pub open spec fn pair_matches(t: SimpleTransfer, a: Seq<char>, b: Seq<char>, tok: Seq<char>) -> bool {
    t.from@ == a && t.to@ == b && t.token@ == tok
}

/// The number of transfers of `tok` from `a` to `b`.
pub open spec fn pair_count(ts: Seq<SimpleTransfer>, a: Seq<char>, b: Seq<char>, tok: Seq<char>) -> nat
    decreases ts.len(),
{
    if ts.len() == 0 {
        0
    } else {
        pair_count(ts.drop_last(), a, b, tok) + (if pair_matches(ts.last(), a, b, tok) {
            1nat
        } else {
            0
        })
    }
}

/// The total amount of `tok` sent from `a` to `b`.
pub open spec fn pair_volume(ts: Seq<SimpleTransfer>, a: Seq<char>, b: Seq<char>, tok: Seq<char>) -> nat
    decreases ts.len(),
{
    if ts.len() == 0 {
        0
    } else {
        pair_volume(ts.drop_last(), a, b, tok) + (if pair_matches(ts.last(), a, b, tok) {
            ts.last().amount as nat
        } else {
            0
        })
    }
}

/// Every pair's total volume fits in a `u128`.
pub open spec fn counterparty_volumes_fit(ts: Seq<SimpleTransfer>) -> bool {
    forall|k: int|
        0 <= k < ts.len() ==> pair_volume(ts, ts[k].from@, ts[k].to@, ts[k].token@) <= u128::MAX as nat
}

/// `r` is the outbound or inbound row of a pair that `ts` holds, with that
/// pair's transfer count and volume, seen at `block_number`.
pub open spec fn relation_matches(ts: Seq<SimpleTransfer>, block_number: u64, r: CounterpartyRelation) -> bool {
    &&& r.first_seen == block_number
    &&& r.last_seen == block_number
    &&& r.total_txs > 0
    &&& {
        ||| r.direction@ == "out"@ && r.total_txs == pair_count(
            ts,
            r.address@,
            r.counterparty@,
            r.token_address@,
        ) && r.total_volume == pair_volume(ts, r.address@, r.counterparty@, r.token_address@)
        ||| r.direction@ == "in"@ && r.total_txs == pair_count(
            ts,
            r.counterparty@,
            r.address@,
            r.token_address@,
        ) && r.total_volume == pair_volume(ts, r.counterparty@, r.address@, r.token_address@)
    }
}

/// `rows` has a relation with this identity.
pub open spec fn has_relation(
    rows: Seq<CounterpartyRelation>,
    a: Seq<char>,
    b: Seq<char>,
    d: Seq<char>,
    tok: Seq<char>,
) -> bool {
    exists|i: int| 0 <= i < rows.len() && #[trigger] relation_key(rows[i]) == (a, b, d, tok)
}

/// No two rows share an identity.
pub open spec fn keys_distinct(rows: Seq<CounterpartyRelation>) -> bool {
    forall|i: int, j: int|
        0 <= i < rows.len() && 0 <= j < rows.len() && i != j ==> relation_key(rows[i])
            != relation_key(rows[j])
}

/// `rows` are exactly the counterparty relations of `ts` seen at `block_number`.
pub open spec fn is_counterparty_table(
    ts: Seq<SimpleTransfer>,
    block_number: u64,
    rows: Seq<CounterpartyRelation>,
) -> bool {
    &&& keys_distinct(rows)
    &&& forall|i: int| 0 <= i < rows.len() ==> relation_matches(ts, block_number, #[trigger] rows[i])
    &&& forall|a: Seq<char>, b: Seq<char>, tok: Seq<char>|
        #[trigger] pair_count(ts, a, b, tok) > 0 ==> has_relation(rows, a, b, "out"@, tok)
            && has_relation(rows, b, a, "in"@, tok)
}

proof fn lemma_pair_step(ts: Seq<SimpleTransfer>, k: int, a: Seq<char>, b: Seq<char>, tok: Seq<char>)
    requires
        0 <= k < ts.len(),
    ensures
        pair_count(ts.take(k + 1), a, b, tok) == pair_count(ts.take(k), a, b, tok) + (if pair_matches(
            ts[k],
            a,
            b,
            tok,
        ) {
            1nat
        } else {
            0
        }),
        pair_volume(ts.take(k + 1), a, b, tok) == pair_volume(ts.take(k), a, b, tok) + (
        if pair_matches(ts[k], a, b, tok) {
            ts[k].amount as nat
        } else {
            0
        }),
{
    assert(ts.take(k + 1).drop_last() =~= ts.take(k));
}

proof fn lemma_pair_prefix_bounds(ts: Seq<SimpleTransfer>, k: int, a: Seq<char>, b: Seq<char>, tok: Seq<char>)
    requires
        0 <= k <= ts.len(),
    ensures
        pair_volume(ts.take(k), a, b, tok) <= pair_volume(ts, a, b, tok),
        pair_count(ts.take(k), a, b, tok) <= k,
    decreases ts.len() - k,
{
    lemma_pair_count_le_len(ts.take(k), a, b, tok);
    if k < ts.len() {
        lemma_pair_prefix_bounds(ts, k + 1, a, b, tok);
        lemma_pair_step(ts, k, a, b, tok);
    } else {
        assert(ts.take(k) =~= ts);
    }
}

proof fn lemma_pair_count_le_len(ts: Seq<SimpleTransfer>, a: Seq<char>, b: Seq<char>, tok: Seq<char>)
    ensures
        pair_count(ts, a, b, tok) <= ts.len(),
    decreases ts.len(),
{
    if ts.len() > 0 {
        lemma_pair_count_le_len(ts.drop_last(), a, b, tok);
    }
}

/// Adds one transfer to the relation with the given identity, creating it at
/// `block_number` when it is missing.
fn add_relation(
    map: &mut Vec<CounterpartyRelation>,
    address: &String,
    counterparty: &String,
    direction: &String,
    token_address: &String,
    amount: u128,
    block_number: u64,
)
    requires
        keys_distinct(old(map)@),
        forall|i: int|
            0 <= i < old(map)@.len() && #[trigger] relation_key(old(map)@[i]) == (
                address@,
                counterparty@,
                direction@,
                token_address@,
            ) ==> old(map)@[i].total_txs < u64::MAX && old(map)@[i].total_volume + amount
                <= u128::MAX,
    ensures
        keys_distinct(final(map)@),
        final(map)@.len() >= old(map)@.len(),
        forall|i: int|
            0 <= i < old(map)@.len() ==> relation_key(#[trigger] final(map)@[i]) == relation_key(
                old(map)@[i],
            ),
        forall|i: int|
            0 <= i < old(map)@.len() && relation_key(old(map)@[i]) != (
                address@,
                counterparty@,
                direction@,
                token_address@,
            ) ==> #[trigger] final(map)@[i] == old(map)@[i],
        forall|i: int|
            0 <= i < old(map)@.len() && relation_key(old(map)@[i]) == (
                address@,
                counterparty@,
                direction@,
                token_address@,
            ) ==> {
                let n = #[trigger] final(map)@[i];
                let o = old(map)@[i];
                &&& n.total_txs == o.total_txs + 1
                &&& n.total_volume == o.total_volume + amount
                &&& n.first_seen == (if o.first_seen <= block_number {
                    o.first_seen
                } else {
                    block_number
                })
                &&& n.last_seen == (if o.last_seen >= block_number {
                    o.last_seen
                } else {
                    block_number
                })
            },
        final(map)@.len() > old(map)@.len() ==> {
            &&& final(map)@.len() == old(map)@.len() + 1
            &&& !has_relation(old(map)@, address@, counterparty@, direction@, token_address@)
            &&& relation_key(final(map)@.last()) == (address@, counterparty@, direction@, token_address@)
            &&& final(map)@.last().total_txs == 1
            &&& final(map)@.last().total_volume == amount
            &&& final(map)@.last().first_seen == block_number
            &&& final(map)@.last().last_seen == block_number
        },
        has_relation(final(map)@, address@, counterparty@, direction@, token_address@),
{
    let ghost key = (address@, counterparty@, direction@, token_address@);
    let ghost old_map = map@;
    let mut i: usize = 0;
    while i < map.len()
        invariant
            i <= map@.len(),
            map@ == old_map,
            old_map == old(map)@,
            key == (address@, counterparty@, direction@, token_address@),
            keys_distinct(old_map),
            forall|q: int|
                0 <= q < old_map.len() && #[trigger] relation_key(old_map[q]) == key
                    ==> old_map[q].total_txs < u64::MAX && old_map[q].total_volume + amount
                    <= u128::MAX,
            forall|q: int| 0 <= q < i ==> relation_key(#[trigger] map@[q]) != key,
        decreases map.len() - i,
    {
        let cur = &map[i];
        if same(&cur.address, address) && same(&cur.counterparty, counterparty) && same(
            &cur.direction,
            direction,
        ) && same(&cur.token_address, token_address) {
            assert(relation_key(map@[i as int]) == key);
            let total_txs = map[i].total_txs + 1;
            let total_volume = map[i].total_volume + amount;
            let first_seen = if map[i].first_seen <= block_number {
                map[i].first_seen
            } else {
                block_number
            };
            let last_seen = if map[i].last_seen >= block_number {
                map[i].last_seen
            } else {
                block_number
            };
            map[i].total_txs = total_txs;
            map[i].total_volume = total_volume;
            map[i].first_seen = first_seen;
            map[i].last_seen = last_seen;
            assert(relation_key(map@[i as int]) == key);
            assert(map@.len() == old_map.len());
            assert(relation_key(map@[i as int]) == relation_key(old_map[i as int]));
            assert forall|q: int| 0 <= q < map@.len() && q != i implies #[trigger] map@[q]
                == old_map[q] by {}
            assert(keys_distinct(map@)) by {
                assert forall|a: int, b: int|
                    0 <= a < map@.len() && 0 <= b < map@.len() && a != b implies relation_key(
                    map@[a],
                ) != relation_key(map@[b]) by {
                    assert(relation_key(map@[a]) == relation_key(old_map[a]));
                    assert(relation_key(map@[b]) == relation_key(old_map[b]));
                }
            }
            assert(relation_key(map@[i as int]) == key);
            return;
        }
        i = i + 1;
    }
    map.push(
        CounterpartyRelation {
            address: address.clone(),
            counterparty: counterparty.clone(),
            direction: direction.clone(),
            token_address: token_address.clone(),
            total_txs: 1,
            total_volume: amount,
            first_seen: block_number,
            last_seen: block_number,
        },
    );
    assert(relation_key(map@[old_map.len() as int]) == key);
    assert(!has_relation(old_map, address@, counterparty@, direction@, token_address@));
    assert(keys_distinct(map@)) by {
        assert forall|a: int, b: int|
            0 <= a < map@.len() && 0 <= b < map@.len() && a != b implies relation_key(map@[a])
                != relation_key(map@[b]) by {
            if a < old_map.len() && b < old_map.len() {
                assert(map@[a] == old_map[a]);
                assert(map@[b] == old_map[b]);
            } else if a < old_map.len() {
                assert(map@[a] == old_map[a]);
            } else {
                assert(map@[b] == old_map[b]);
            }
        }
    }
}

/// For each transfer, counts it on the sender's `"out"` row towards the
/// receiver and on the receiver's `"in"` row from the sender, per token; all
/// rows are seen at `block_number`.
pub fn build_counterparty_relations(transfers: &[SimpleTransfer], block_number: u64) -> (rows: Vec<
    CounterpartyRelation,
>)
    requires
        counterparty_volumes_fit(transfers@),
    ensures
        is_counterparty_table(transfers@, block_number, rows@),
{
    proof {
        reveal_strlit("out");
        reveal_strlit("in");
        assert("out"@.len() != "in"@.len());
    }
    let ghost ts = transfers@;
    let out_dir = owned("out");
    let in_dir = owned("in");
    let mut map: Vec<CounterpartyRelation> = Vec::new();
    let mut k: usize = 0;
    assert(ts.take(0) =~= Seq::<SimpleTransfer>::empty());
    while k < transfers.len()
        invariant
            ts == transfers@,
            k <= ts.len(),
            counterparty_volumes_fit(ts),
            out_dir@ == "out"@,
            in_dir@ == "in"@,
            "out"@ != "in"@,
            is_counterparty_table(ts.take(k as int), block_number, map@),
        decreases transfers.len() - k,
    {
        let t = &transfers[k];
        let ghost p0 = ts.take(k as int);
        let ghost p1 = ts.take(k + 1);
        let ghost f = t.from@;
        let ghost g = t.to@;
        let ghost tk = t.token@;
        let ghost out_key = (f, g, "out"@, tk);
        let ghost in_key = (g, f, "in"@, tk);
        let ghost m0 = map@;
        proof {
            lemma_pair_step(ts, k as int, f, g, tk);
            lemma_pair_prefix_bounds(ts, k + 1, f, g, tk);
            assert(pair_matches(ts[k as int], f, g, tk));
            assert(pair_volume(ts, f, g, tk) <= u128::MAX as nat);
            assert forall|i: int|
                0 <= i < m0.len() && #[trigger] relation_key(m0[i]) == out_key implies m0[i].total_txs
                < u64::MAX && m0[i].total_volume + t.amount <= u128::MAX by {
                assert(relation_matches(p0, block_number, m0[i]));
            }
        }
        add_relation(&mut map, &t.from, &t.to, &out_dir, &t.token, t.amount, block_number);
        let ghost m1 = map@;
        proof {
            assert forall|i: int|
                0 <= i < m1.len() && #[trigger] relation_key(m1[i]) == in_key implies m1[i].total_txs
                < u64::MAX && m1[i].total_volume + t.amount <= u128::MAX by {
                if i < m0.len() {
                    assert(relation_key(m0[i]) == in_key);
                    assert(m1[i] == m0[i]);
                    assert(relation_matches(p0, block_number, m0[i]));
                } else {
                    assert(m1[i] == m1.last());
                }
            }
        }
        add_relation(&mut map, &t.to, &t.from, &in_dir, &t.token, t.amount, block_number);
        proof {
            let m2 = map@;
            assert forall|i: int| 0 <= i < m2.len() implies relation_matches(
                p1,
                block_number,
                #[trigger] m2[i],
            ) by {
                let r = m2[i];
                lemma_pair_step(ts, k as int, r.address@, r.counterparty@, r.token_address@);
                lemma_pair_step(ts, k as int, r.counterparty@, r.address@, r.token_address@);
                if i < m0.len() {
                    assert(relation_matches(p0, block_number, m0[i]));
                    assert(relation_key(m1[i]) == relation_key(m0[i]));
                    assert(relation_key(m2[i]) == relation_key(m1[i]));
                } else if i < m1.len() {
                    assert(relation_key(m2[i]) == relation_key(m1[i]));
                    assert(m1[i] == m1.last());
                    assert(!has_relation(m0, f, g, "out"@, tk));
                    assert(pair_count(p0, f, g, tk) == 0);
                    assert(pair_volume(p0, f, g, tk) == 0) by {
                        lemma_zero_count_zero_volume(p0, f, g, tk);
                    }
                } else {
                    assert(m2[i] == m2.last());
                    assert(!has_relation(m1, g, f, "in"@, tk));
                    assert(!has_relation(m0, g, f, "in"@, tk)) by {
                        if has_relation(m0, g, f, "in"@, tk) {
                            let w = choose|w: int|
                                0 <= w < m0.len() && #[trigger] relation_key(m0[w]) == in_key;
                            assert(relation_key(m1[w]) == in_key);
                        }
                    }
                    assert(pair_count(p0, f, g, tk) == 0);
                    assert(pair_volume(p0, f, g, tk) == 0) by {
                        lemma_zero_count_zero_volume(p0, f, g, tk);
                    }
                }
            }
            assert forall|a: Seq<char>, b: Seq<char>, tok: Seq<char>| #[trigger]
                pair_count(p1, a, b, tok) > 0 implies has_relation(m2, a, b, "out"@, tok)
                && has_relation(m2, b, a, "in"@, tok) by {
                lemma_pair_step(ts, k as int, a, b, tok);
                if pair_count(p0, a, b, tok) > 0 {
                    let w1 = choose|w: int|
                        0 <= w < m0.len() && #[trigger] relation_key(m0[w]) == (a, b, "out"@, tok);
                    let w2 = choose|w: int|
                        0 <= w < m0.len() && #[trigger] relation_key(m0[w]) == (b, a, "in"@, tok);
                    assert(relation_key(m1[w1]) == relation_key(m0[w1]));
                    assert(relation_key(m2[w1]) == relation_key(m1[w1]));
                    assert(relation_key(m1[w2]) == relation_key(m0[w2]));
                    assert(relation_key(m2[w2]) == relation_key(m1[w2]));
                } else {
                    assert(has_relation(m1, f, g, "out"@, tk));
                    let w1 = choose|w: int|
                        0 <= w < m1.len() && #[trigger] relation_key(m1[w]) == out_key;
                    assert(relation_key(m2[w1]) == relation_key(m1[w1]));
                }
            }
        }
        k = k + 1;
    }
    assert(ts.take(ts.len() as int) =~= ts);
    map
}

proof fn lemma_zero_count_zero_volume(ts: Seq<SimpleTransfer>, a: Seq<char>, b: Seq<char>, tok: Seq<char>)
    requires
        pair_count(ts, a, b, tok) == 0,
    ensures
        pair_volume(ts, a, b, tok) == 0,
    decreases ts.len(),
{
    if ts.len() > 0 {
        lemma_zero_count_zero_volume(ts.drop_last(), a, b, tok);
    }
}

/// Law (mirrored rows): every outbound row of the table has an inbound row
/// for the counterparty, in the same token, with the same count, volume and blocks.
pub proof fn lemma_counterparty_rows_mirror(
    ts: Seq<SimpleTransfer>,
    block_number: u64,
    rows: Seq<CounterpartyRelation>,
    p: int,
)
    requires
        is_counterparty_table(ts, block_number, rows),
        0 <= p < rows.len(),
        rows[p].direction@ == "out"@,
    ensures
        exists|q: int|
            0 <= q < rows.len() && #[trigger] relation_key(rows[q]) == (
                rows[p].counterparty@,
                rows[p].address@,
                "in"@,
                rows[p].token_address@,
            ) && rows[q].total_txs == rows[p].total_txs && rows[q].total_volume
                == rows[p].total_volume && rows[q].first_seen == rows[p].first_seen
                && rows[q].last_seen == rows[p].last_seen,
{
    reveal_strlit("out");
    reveal_strlit("in");
    assert("out"@.len() != "in"@.len());
    let r = rows[p];
    assert(relation_matches(ts, block_number, r));
    assert(pair_count(ts, r.address@, r.counterparty@, r.token_address@) > 0);
    let q = choose|q: int|
        0 <= q < rows.len() && #[trigger] relation_key(rows[q]) == (
            r.counterparty@,
            r.address@,
            "in"@,
            r.token_address@,
        );
    assert(relation_matches(ts, block_number, rows[q]));
}

} // verus!
