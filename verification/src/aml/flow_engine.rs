//! Net flows: how much of each token each address gained or lost over a set
//! of transfers.
use vstd::prelude::*;

use crate::aml::types::{AddressFlows, FlowMap, NetFlow, SimpleTransfer, TokenDelta};
use crate::text::same;

verus! {

/// The transferred amount as a signed 128-bit value, saturating at `i128::MAX`.
pub open spec fn clamp_amount(amount: u128) -> int {
    if amount <= i128::MAX as u128 {
        amount as int
    } else {
        i128::MAX as int
    }
}

pub open spec fn in_i128(x: int) -> bool {
    i128::MIN <= x <= i128::MAX
}

/// The change that transfer `t` makes to the balance of address `a` in token `tok`:
/// the receiver gains the amount, the sender loses it.
pub open spec fn transfer_effect(t: SimpleTransfer, a: Seq<char>, tok: Seq<char>) -> int {
    if t.token@ == tok {
        (if t.to@ == a {
            clamp_amount(t.amount)
        } else {
            0
        }) - (if t.from@ == a {
            clamp_amount(t.amount)
        } else {
            0
        })
    } else {
        0
    }
}

/// The net change of the balance of `a` in `tok` over all of `ts`.
pub open spec fn net_flow(ts: Seq<SimpleTransfer>, a: Seq<char>, tok: Seq<char>) -> int
    decreases ts.len(),
{
    if ts.len() == 0 {
        0
    } else {
        net_flow(ts.drop_last(), a, tok) + transfer_effect(ts.last(), a, tok)
    }
}

/// Transfer `t` moves token `tok` into or out of address `a`.
pub open spec fn touches_one(t: SimpleTransfer, a: Seq<char>, tok: Seq<char>) -> bool {
    t.token@ == tok && (t.from@ == a || t.to@ == a)
}

/// Some transfer of `ts` moves token `tok` into or out of address `a`.
pub open spec fn touches(ts: Seq<SimpleTransfer>, a: Seq<char>, tok: Seq<char>) -> bool {
    exists|k: int| 0 <= k < ts.len() && #[trigger] touches_one(ts[k], a, tok)
}

/// The running balances that accumulating transfer `k` passes through fit in an `i128`:
/// first the sender's balance after it pays, then the receiver's after it is paid.
pub open spec fn net_flow_step_fits(ts: Seq<SimpleTransfer>, k: int) -> bool {
    &&& in_i128(net_flow(ts.take(k), ts[k].from@, ts[k].token@) - clamp_amount(ts[k].amount))
    &&& in_i128(net_flow(ts.take(k + 1), ts[k].to@, ts[k].token@))
}

/// Accumulating the net flows of `ts`, transfer by transfer, never leaves the `i128` range.
pub open spec fn net_flows_fit(ts: Seq<SimpleTransfer>) -> bool {
    forall|k: int| 0 <= k < ts.len() ==> #[trigger] net_flow_step_fits(ts, k)
}

/// `m` holds exactly the net flows of `ts`: one entry per address and token that
/// some transfer touches, with the net change as its value.
pub open spec fn is_net_flow_map(ts: Seq<SimpleTransfer>, m: FlowMap) -> bool {
    &&& m.wf()
    &&& forall|i: int, j: int|
        #![trigger m.tok(i, j)]
        m.valid_index(i, j) ==> touches(ts, m.addr(i), m.tok(i, j)) && m.delta(i, j) == net_flow(
            ts,
            m.addr(i),
            m.tok(i, j),
        )
    &&& forall|a: Seq<char>, tok: Seq<char>| #[trigger] touches(ts, a, tok) ==> m.has_key(a, tok)
}

/// A transfer set that never touches `(a, tok)` leaves its balance unchanged.
pub proof fn lemma_untouched_net_zero(ts: Seq<SimpleTransfer>, a: Seq<char>, tok: Seq<char>)
    requires
        !touches(ts, a, tok),
    ensures
        net_flow(ts, a, tok) == 0,
    decreases ts.len(),
{
    if ts.len() > 0 {
        let p = ts.drop_last();
        assert(!touches_one(ts[ts.len() - 1], a, tok));
        assert forall|k: int| 0 <= k < p.len() implies !#[trigger] touches_one(p[k], a, tok) by {
            assert(p[k] == ts[k]);
        }
        lemma_untouched_net_zero(p, a, tok);
    }
}

/// A non-zero net change means some transfer touched the pair.
pub proof fn lemma_nonzero_net_touches(ts: Seq<SimpleTransfer>, a: Seq<char>, tok: Seq<char>)
    requires
        net_flow(ts, a, tok) != 0,
    ensures
        touches(ts, a, tok),
{
    if !touches(ts, a, tok) {
        lemma_untouched_net_zero(ts, a, tok);
    }
}

proof fn lemma_take_step(ts: Seq<SimpleTransfer>, k: int, a: Seq<char>, tok: Seq<char>)
    requires
        0 <= k < ts.len(),
    ensures
        net_flow(ts.take(k + 1), a, tok) == net_flow(ts.take(k), a, tok) + transfer_effect(
            ts[k],
            a,
            tok,
        ),
        touches(ts.take(k + 1), a, tok) <==> (touches(ts.take(k), a, tok) || touches_one(
            ts[k],
            a,
            tok,
        )),
{
    let p1 = ts.take(k + 1);
    let p0 = ts.take(k);
    assert(p1.drop_last() =~= p0);
    assert(p1.last() == ts[k]);
    if touches(p1, a, tok) {
        let w = choose|w: int| 0 <= w < p1.len() && #[trigger] touches_one(p1[w], a, tok);
        if w < k {
            assert(p0[w] == p1[w]);
            assert(touches_one(p0[w], a, tok));
        }
    }
    if touches(p0, a, tok) {
        let w = choose|w: int| 0 <= w < p0.len() && #[trigger] touches_one(p0[w], a, tok);
        assert(p1[w] == p0[w]);
        assert(touches_one(p1[w], a, tok));
    }
    if touches_one(ts[k], a, tok) {
        assert(p1[k] == ts[k]);
        assert(touches_one(p1[k], a, tok));
    }
}

/// The value that the ghost map `g` gives to `key`, or 0 when it has none.
pub open spec fn value_or_zero(g: Map<(Seq<char>, Seq<char>), int>, key: (Seq<char>, Seq<char>)) -> int {
    if g.contains_key(key) {
        g[key]
    } else {
        0
    }
}

/// The flow map `m` holds exactly the entries of the ghost map `g`.
spec fn represents(m: FlowMap, g: Map<(Seq<char>, Seq<char>), int>) -> bool {
    &&& m.wf()
    &&& forall|i: int, j: int|
        #![trigger m.tok(i, j)]
        m.valid_index(i, j) ==> g.contains_key((m.addr(i), m.tok(i, j))) && g[(
            m.addr(i),
            m.tok(i, j),
        )] == m.delta(i, j)
    &&& forall|k: (Seq<char>, Seq<char>)| #[trigger] g.contains_key(k) ==> m.has_key(k.0, k.1)
}

fn find_address(m: &FlowMap, a: &String) -> (r: Option<usize>)
    ensures
        match r {
            Some(i) => i < m.len() && m.addr(i as int) == a@,
            None => forall|i: int| 0 <= i < m.len() ==> m.addr(i) != a@,
        },
{
    let mut i: usize = 0;
    while i < m.entries.len()
        invariant
            i <= m.len(),
            forall|k: int| 0 <= k < i ==> m.addr(k) != a@,
        decreases m.entries.len() - i,
    {
        if same(&m.entries[i].address, a) {
            return Some(i);
        }
        i = i + 1;
    }
    None
}

fn find_token(m: &FlowMap, i: usize, tok: &String) -> (r: Option<usize>)
    requires
        i < m.len(),
    ensures
        match r {
            Some(j) => j < m.n_tokens(i as int) && m.tok(i as int, j as int) == tok@,
            None => forall|j: int| 0 <= j < m.n_tokens(i as int) ==> m.tok(i as int, j) != tok@,
        },
{
    let mut j: usize = 0;
    while j < m.entries[i].tokens.len()
        invariant
            i < m.len(),
            j <= m.n_tokens(i as int),
            forall|k: int| 0 <= k < j ==> m.tok(i as int, k) != tok@,
        decreases m.entries[i as int].tokens@.len() - j,
    {
        if same(&m.entries[i].tokens[j].token, tok) {
            return Some(j);
        }
        j = j + 1;
    }
    None
}

/// Adds `d` to the entry for `(a, tok)`, creating the entry when it is missing.
fn apply_delta(
    m: &mut FlowMap,
    a: &String,
    tok: &String,
    d: i128,
    Ghost(g): Ghost<Map<(Seq<char>, Seq<char>), int>>,
)
    requires
        represents(*old(m), g),
        in_i128(value_or_zero(g, (a@, tok@)) + d),
    ensures
        represents(*final(m), g.insert((a@, tok@), value_or_zero(g, (a@, tok@)) + d)),
{
    let ghost key = (a@, tok@);
    let ghost g2 = g.insert(key, value_or_zero(g, key) + d);
    let ghost m0 = *m;
    match find_address(m, a) {
        Some(i) => {
            match find_token(m, i, tok) {
                Some(j) => {
                    assert(g.contains_key(key));
                    let v = m.entries[i].tokens[j].delta + d;
                    m.entries[i].tokens[j].delta = v;
                    assert(m.len() == m0.len());
                    assert forall|i1: int, j1: int| m.valid_index(i1, j1) implies m.addr(i1)
                        == m0.addr(i1) && m.tok(i1, j1) == m0.tok(i1, j1) && (m.delta(i1, j1)
                        == if i1 == i && j1 == j {
                        v as int
                    } else {
                        m0.delta(i1, j1)
                    }) && m.n_tokens(i1) == m0.n_tokens(i1) by {}
                    assert forall|i1: int| 0 <= i1 < m.len() implies m.addr(i1) == m0.addr(i1)
                        && m.n_tokens(i1) == m0.n_tokens(i1) by {}
                    assert forall|i1: int, i2: int|
                        #![trigger m.addr(i1), m.addr(i2)]
                        0 <= i1 < m.len() && 0 <= i2 < m.len() && i1 != i2 implies m.addr(i1)
                            != m.addr(i2) by {
                        assert(m0.addr(i1) != m0.addr(i2));
                    }
                    assert forall|i1: int, j1: int, j2: int|
                        #![trigger m.tok(i1, j1), m.tok(i1, j2)]
                        m.valid_index(i1, j1) && m.valid_index(i1, j2) && j1 != j2 implies m.tok(
                        i1,
                        j1,
                    ) != m.tok(i1, j2) by {
                        assert(m0.valid_index(i1, j1));
                        assert(m0.valid_index(i1, j2));
                        assert(m0.tok(i1, j1) != m0.tok(i1, j2));
                    }
                    assert forall|i1: int| 0 <= i1 < m.len() implies #[trigger] m.n_tokens(i1) > 0 by {
                        assert(m0.n_tokens(i1) > 0);
                    }
                    assert(m.wf());
                    assert forall|i1: int, j1: int| m.valid_index(i1, j1) implies g2.contains_key(
                        (m.addr(i1), m.tok(i1, j1)),
                    ) && g2[(m.addr(i1), m.tok(i1, j1))] == m.delta(i1, j1) by {
                        assert(m0.valid_index(i1, j1));
                        assert(m.tok(i1, j1) == m0.tok(i1, j1));
                        assert(m.addr(i1) == m0.addr(i1));
                        assert(g.contains_key((m0.addr(i1), m0.tok(i1, j1))));
                        if i1 == i && j1 == j {
                            assert(m0.tok(i as int, j as int) == tok@);
                        } else if i1 == i {
                            assert(m.delta(i1, j1) == m0.delta(i1, j1));
                            assert(m0.tok(i1, j1) != m0.tok(i1, j as int));
                        } else {
                            assert(m.delta(i1, j1) == m0.delta(i1, j1));
                            assert(m0.addr(i1) != m0.addr(i as int));
                        }
                    }
                    assert forall|k: (Seq<char>, Seq<char>)| #[trigger]
                        g2.contains_key(k) implies m.has_key(k.0, k.1) by {
                        assert(m0.has_key(k.0, k.1));
                        let (i1, j1) = choose|i1: int, j1: int|
                            #![trigger m0.tok(i1, j1)]
                            m0.valid_index(i1, j1) && m0.addr(i1) == k.0 && m0.tok(i1, j1) == k.1;
                        assert(m.tok(i1, j1) == k.1);
                    }
                },
                None => {
                    assert(!g.contains_key(key)) by {
                        if g.contains_key(key) {
                            assert(m0.has_key(a@, tok@));
                            let (i1, j1) = choose|i1: int, j1: int|
                                #![trigger m0.tok(i1, j1)]
                                m0.valid_index(i1, j1) && m0.addr(i1) == a@ && m0.tok(i1, j1)
                                    == tok@;
                            assert(i1 == i);
                        }
                    }
                    let t = TokenDelta { token: tok.clone(), delta: d };
                    m.entries[i].tokens.push(t);
                    let ghost jn = m0.n_tokens(i as int);
                    assert(m.tok(i as int, jn) == tok@);
                    assert forall|i1: int, j1: int| m0.valid_index(i1, j1) implies m.valid_index(
                        i1,
                        j1,
                    ) && m.addr(i1) == m0.addr(i1) && m.tok(i1, j1) == m0.tok(i1, j1) && m.delta(
                        i1,
                        j1,
                    ) == m0.delta(i1, j1) by {}
                    assert forall|i1: int| 0 <= i1 < m.len() implies m.addr(i1) == m0.addr(i1)
                        && m.n_tokens(i1) == m0.n_tokens(i1) + (if i1 == i {
                        1int
                    } else {
                        0
                    }) by {}
                    assert forall|i1: int, j1: int, j2: int|
                        #![trigger m.tok(i1, j1), m.tok(i1, j2)]
                        m.valid_index(i1, j1) && m.valid_index(i1, j2) && j1 != j2 implies m.tok(
                        i1,
                        j1,
                    ) != m.tok(i1, j2) by {
                        if i1 == i && j1 == jn {
                            assert(m0.valid_index(i1, j2));
                            assert(m0.tok(i1, j2) != tok@);
                        } else if i1 == i && j2 == jn {
                            assert(m0.valid_index(i1, j1));
                            assert(m0.tok(i1, j1) != tok@);
                        } else {
                            assert(m0.valid_index(i1, j1));
                            assert(m0.valid_index(i1, j2));
                            assert(m0.tok(i1, j1) != m0.tok(i1, j2));
                        }
                    }
                    assert forall|i1: int, i2: int|
                        #![trigger m.addr(i1), m.addr(i2)]
                        0 <= i1 < m.len() && 0 <= i2 < m.len() && i1 != i2 implies m.addr(i1)
                            != m.addr(i2) by {
                        assert(m0.addr(i1) != m0.addr(i2));
                    }
                    assert forall|i1: int| 0 <= i1 < m.len() implies #[trigger] m.n_tokens(i1) > 0 by {
                        assert(m0.n_tokens(i1) > 0);
                    }
                    assert(m.wf());
                    assert forall|k: (Seq<char>, Seq<char>)| #[trigger]
                        g2.contains_key(k) implies m.has_key(k.0, k.1) by {
                        if k == key {
                            assert(m.valid_index(i as int, jn));
                        } else {
                            assert(m0.has_key(k.0, k.1));
                            let (i1, j1) = choose|i1: int, j1: int|
                                #![trigger m0.tok(i1, j1)]
                                m0.valid_index(i1, j1) && m0.addr(i1) == k.0 && m0.tok(i1, j1)
                                    == k.1;
                            assert(m.tok(i1, j1) == k.1);
                        }
                    }
                    assert forall|i1: int, j1: int| m.valid_index(i1, j1) implies g2.contains_key(
                        (m.addr(i1), m.tok(i1, j1)),
                    ) && g2[(m.addr(i1), m.tok(i1, j1))] == m.delta(i1, j1) by {
                        if i1 == i && j1 == jn {
                        } else {
                            assert(m0.valid_index(i1, j1));
                            assert((m0.addr(i1), m0.tok(i1, j1)) != key);
                        }
                    }
                },
            }
        },
        None => {
            assert(!g.contains_key(key)) by {
                if g.contains_key(key) {
                    assert(m0.has_key(a@, tok@));
                }
            }
            let t = TokenDelta { token: tok.clone(), delta: d };
            let mut toks: Vec<TokenDelta> = Vec::new();
            toks.push(t);
            let e = AddressFlows { address: a.clone(), tokens: toks };
            m.entries.push(e);
            let ghost n = m0.len();
            assert(m.addr(n) == a@);
            assert(m.tok(n, 0) == tok@);
            assert forall|i1: int, j1: int| m0.valid_index(i1, j1) implies m.valid_index(i1, j1)
                && m.addr(i1) == m0.addr(i1) && m.tok(i1, j1) == m0.tok(i1, j1) && m.delta(i1, j1)
                == m0.delta(i1, j1) by {}
            assert forall|i1: int| 0 <= i1 < n implies m.addr(i1) == m0.addr(i1) && m.n_tokens(
                i1,
            ) == m0.n_tokens(i1) by {}
            assert forall|i1: int, i2: int|
                #![trigger m.addr(i1), m.addr(i2)]
                0 <= i1 < m.len() && 0 <= i2 < m.len() && i1 != i2 implies m.addr(i1) != m.addr(
                i2,
            ) by {
                if i1 < n && i2 < n {
                    assert(m0.addr(i1) != m0.addr(i2));
                } else if i1 < n {
                    assert(m.addr(i1) == m0.addr(i1));
                } else {
                    assert(m.addr(i2) == m0.addr(i2));
                }
            }
            assert forall|i1: int, j1: int, j2: int|
                #![trigger m.tok(i1, j1), m.tok(i1, j2)]
                m.valid_index(i1, j1) && m.valid_index(i1, j2) && j1 != j2 implies m.tok(i1, j1)
                    != m.tok(i1, j2) by {
                if i1 < n {
                    assert(m0.valid_index(i1, j1));
                    assert(m0.valid_index(i1, j2));
                    assert(m0.tok(i1, j1) != m0.tok(i1, j2));
                }
            }
            assert forall|i1: int| 0 <= i1 < m.len() implies #[trigger] m.n_tokens(i1) > 0 by {
                if i1 < n {
                    assert(m0.n_tokens(i1) > 0);
                }
            }
            assert(m.wf());
            assert forall|k: (Seq<char>, Seq<char>)| #[trigger] g2.contains_key(k) implies m.has_key(
                k.0,
                k.1,
            ) by {
                if k == key {
                    assert(m.valid_index(n, 0));
                } else {
                    assert(m0.has_key(k.0, k.1));
                    let (i1, j1) = choose|i1: int, j1: int|
                        #![trigger m0.tok(i1, j1)]
                        m0.valid_index(i1, j1) && m0.addr(i1) == k.0 && m0.tok(i1, j1) == k.1;
                    assert(m.tok(i1, j1) == k.1);
                }
            }
            assert forall|i1: int, j1: int| m.valid_index(i1, j1) implies g2.contains_key(
                (m.addr(i1), m.tok(i1, j1)),
            ) && g2[(m.addr(i1), m.tok(i1, j1))] == m.delta(i1, j1) by {
                if i1 == n {
                    assert(j1 == 0);
                } else {
                    assert(m0.valid_index(i1, j1));
                    assert(m0.addr(i1) != a@);
                }
            }
        },
    }
}

/// Net change per address and token: the sender of each transfer loses its
/// amount and the receiver gains it (amounts above `i128::MAX` count as
/// `i128::MAX`).
pub fn compute_net_flows(transfers: &[SimpleTransfer]) -> (flows: FlowMap)
    requires
        net_flows_fit(transfers@),
    ensures
        is_net_flow_map(transfers@, flows),
{
    let ghost ts = transfers@;
    let mut flows = FlowMap { entries: Vec::new() };
    let ghost mut g: Map<(Seq<char>, Seq<char>), int> = Map::empty();
    assert(ts.take(0) =~= Seq::<SimpleTransfer>::empty());
    let mut k: usize = 0;
    while k < transfers.len()
        invariant
            k <= ts.len(),
            ts == transfers@,
            net_flows_fit(ts),
            represents(flows, g),
            forall|a: Seq<char>, tok: Seq<char>|
                #[trigger] g.contains_key((a, tok)) <==> touches(ts.take(k as int), a, tok),
            forall|a: Seq<char>, tok: Seq<char>|
                #[trigger] g.contains_key((a, tok)) ==> g[(a, tok)] == net_flow(
                    ts.take(k as int),
                    a,
                    tok,
                ),
        decreases transfers.len() - k,
    {
        let t = &transfers[k];
        let amount: i128 = if t.amount <= i128::MAX as u128 {
            t.amount as i128
        } else {
            i128::MAX
        };
        let ghost c = clamp_amount(t.amount);
        let ghost p = ts.take(k as int);
        let ghost from = t.from@;
        let ghost to = t.to@;
        let ghost tok = t.token@;
        assert(net_flow_step_fits(ts, k as int));
        proof {
            if !g.contains_key((from, tok)) {
                lemma_untouched_net_zero(p, from, tok);
            }
        }
        apply_delta(&mut flows, &t.from, &t.token, -amount, Ghost(g));
        let ghost g1 = g.insert((from, tok), value_or_zero(g, (from, tok)) - c);
        proof {
            lemma_take_step(ts, k as int, to, tok);
            if !g.contains_key((to, tok)) {
                lemma_untouched_net_zero(p, to, tok);
            }
            assert(value_or_zero(g1, (to, tok)) + c == net_flow(ts.take(k + 1), to, tok));
        }
        apply_delta(&mut flows, &t.to, &t.token, amount, Ghost(g1));
        proof {
            let g2 = g1.insert((to, tok), value_or_zero(g1, (to, tok)) + c);
            let p1 = ts.take(k + 1);
            assert forall|a: Seq<char>, tk: Seq<char>|
                #[trigger] g2.contains_key((a, tk)) <==> touches(p1, a, tk) by {
                lemma_take_step(ts, k as int, a, tk);
            }
            assert forall|a: Seq<char>, tk: Seq<char>| #[trigger]
                g2.contains_key((a, tk)) implies g2[(a, tk)] == net_flow(p1, a, tk) by {
                lemma_take_step(ts, k as int, a, tk);
                if !g.contains_key((a, tk)) {
                    lemma_untouched_net_zero(p, a, tk);
                }
            }
            g = g2;
        }
        k = k + 1;
    }
    proof {
        assert(ts.take(ts.len() as int) =~= ts);
        assert forall|i: int, j: int| flows.valid_index(i, j) implies touches(
            ts,
            flows.addr(i),
            flows.tok(i, j),
        ) && flows.delta(i, j) == net_flow(ts, flows.addr(i), flows.tok(i, j)) by {
            assert(g.contains_key((flows.addr(i), flows.tok(i, j))));
        }
        assert forall|a: Seq<char>, tok: Seq<char>| #[trigger] touches(ts, a, tok) implies flows.has_key(
            a,
            tok,
        ) by {
            assert(g.contains_key((a, tok)));
        }
    }
    flows
}


/// A net flow row as plain values: address, token, change.
pub open spec fn row_view(nf: NetFlow) -> (Seq<char>, Seq<char>, i128) {
    (nf.address@, nf.token@, nf.delta)
}

/// The rows of one address's entry, in the entry's token order.
pub open spec fn entry_rows(e: AddressFlows) -> Seq<(Seq<char>, Seq<char>, i128)> {
    e.tokens@.map_values(|td: TokenDelta| (e.address@, td.token@, td.delta))
}

/// All rows of a flow map, address by address.
pub open spec fn flatten_entries(entries: Seq<AddressFlows>) -> Seq<(Seq<char>, Seq<char>, i128)>
    decreases entries.len(),
{
    if entries.len() == 0 {
        Seq::empty()
    } else {
        flatten_entries(entries.drop_last()) + entry_rows(entries.last())
    }
}

/// The row of token `j` under entry `i`.
pub open spec fn entry_row(es: Seq<AddressFlows>, i: int, j: int) -> (Seq<char>, Seq<char>, i128) {
    (es[i].address@, es[i].tokens@[j].token@, es[i].tokens@[j].delta)
}

/// Where the rows of entry `i` start among all rows.
pub open spec fn row_offset(es: Seq<AddressFlows>, i: int) -> int {
    flatten_entries(es.take(i)).len() as int
}

/// Token `j` of entry `i` is a valid position of the entries.
pub open spec fn valid_position(es: Seq<AddressFlows>, i: int, j: int) -> bool {
    0 <= i < es.len() && 0 <= j < es[i].tokens@.len()
}

/// Row `p` is the row of token `j` under entry `i`.
pub open spec fn row_comes_from(es: Seq<AddressFlows>, p: int, i: int, j: int) -> bool {
    valid_position(es, i, j) && p == row_offset(es, i) + j && flatten_entries(es)[p] == entry_row(es, i, j)
}

proof fn lemma_flatten_positions(es: Seq<AddressFlows>)
    ensures
        forall|i: int, j: int|
            #[trigger] valid_position(es, i, j) ==> row_offset(es, i) + j < flatten_entries(es).len()
                && row_comes_from(es, row_offset(es, i) + j, i, j),
        forall|p: int|
            0 <= p < flatten_entries(es).len() ==> #[trigger] flatten_entries(es)[p] == flatten_entries(es)[p]
                && exists|i: int, j: int| #[trigger] row_comes_from(es, p, i, j),
    decreases es.len(),
{
    if es.len() > 0 {
        let n = es.len() - 1;
        let prev = es.drop_last();
        lemma_flatten_positions(prev);
        let f = flatten_entries(prev);
        let e = entry_rows(es[n]);
        assert(flatten_entries(es) == f + e);
        assert(es.take(n) =~= prev);
        assert forall|i: int| 0 <= i <= n implies #[trigger] row_offset(es, i) == row_offset(prev, i) by {
            assert(es.take(i) =~= prev.take(i));
        }
        assert(prev.take(n) =~= prev);
        assert(row_offset(es, n) == f.len());
        assert forall|i: int, j: int| #[trigger] valid_position(es, i, j) implies row_offset(es, i) + j
            < flatten_entries(es).len() && row_comes_from(es, row_offset(es, i) + j, i, j) by {
            assert(row_offset(es, i) == row_offset(prev, i));
            if i < n {
                assert(prev[i] == es[i]);
                assert(valid_position(prev, i, j));
                assert(row_comes_from(prev, row_offset(prev, i) + j, i, j));
            } else {
                assert(e[j] == entry_row(es, i, j));
            }
        }
        assert forall|p: int| 0 <= p < flatten_entries(es).len() implies #[trigger] flatten_entries(es)[p]
            == flatten_entries(es)[p] && exists|i: int, j: int| #[trigger] row_comes_from(es, p, i, j) by {
            if p < f.len() {
                assert(f[p] == f[p]);
                let (i, j) = choose|i: int, j: int| #[trigger] row_comes_from(prev, p, i, j);
                assert(prev[i] == es[i]);
                assert(row_offset(es, i) == row_offset(prev, i));
                assert(row_comes_from(es, p, i, j));
            } else {
                let j = p - f.len();
                assert(e[j] == entry_row(es, n, j));
                assert(row_comes_from(es, p, n, j));
            }
        }
    } else {
        assert(flatten_entries(es).len() == 0);
    }
}

proof fn lemma_flatten_rows(m: FlowMap, out: Seq<NetFlow>)
    requires
        m.keys_distinct(),
        out.map_values(|nf: NetFlow| row_view(nf)) == flatten_entries(m.entries@),
    ensures
        forall|i: int, j: int|
            #[trigger] m.valid_index(i, j) ==> exists|p: int|
                0 <= p < out.len() && #[trigger] is_row_of(m, i, j, out[p]),
        forall|p: int| 0 <= p < out.len() ==> #[trigger] comes_from_map(m, out[p]),
        forall|p: int, q: int|
            0 <= p < q < out.len() ==> (out[p].address@, out[p].token@) != (
                out[q].address@,
                out[q].token@,
            ),
{
    let es = m.entries@;
    let rows = out.map_values(|nf: NetFlow| row_view(nf));
    lemma_flatten_positions(es);
    assert forall|i: int, j: int| #[trigger] m.valid_index(i, j) implies exists|p: int|
        0 <= p < out.len() && #[trigger] is_row_of(m, i, j, out[p]) by {
        assert(valid_position(es, i, j));
        let p = row_offset(es, i) + j;
        assert(rows[p] == row_view(out[p]));
        assert(is_row_of(m, i, j, out[p]));
    }
    assert forall|p: int| 0 <= p < out.len() implies #[trigger] comes_from_map(m, out[p]) by {
        assert(rows[p] == row_view(out[p]));
        assert(flatten_entries(es)[p] == rows[p]);
        let (i, j) = choose|i: int, j: int| #[trigger] row_comes_from(es, p, i, j);
        assert(row_comes_from(es, p, i, j));
        assert(m.valid_index(i, j));
        assert(m.tok(i, j) == es[i].tokens@[j].token@);
        assert(is_row_of(m, i, j, out[p]));
    }
    assert forall|p: int, q: int| 0 <= p < q < out.len() implies (out[p].address@, out[p].token@)
        != (out[q].address@, out[q].token@) by {
        assert(rows[p] == row_view(out[p]));
        assert(rows[q] == row_view(out[q]));
        assert(flatten_entries(es)[p] == rows[p]);
        assert(flatten_entries(es)[q] == rows[q]);
        let (i1, j1) = choose|i: int, j: int| #[trigger] row_comes_from(es, p, i, j);
        let (i2, j2) = choose|i: int, j: int| #[trigger] row_comes_from(es, q, i, j);
        if i1 != i2 {
            assert(m.addr(i1) != m.addr(i2));
        } else if j1 != j2 {
            assert(m.valid_index(i1, j1) && m.valid_index(i1, j2));
            assert(m.tok(i1, j1) != m.tok(i1, j2));
        }
    }
}

/// `nf` is the row of token `j` under address `i` of the map.
pub open spec fn is_row_of(m: FlowMap, i: int, j: int, nf: NetFlow) -> bool {
    row_view(nf) == (m.addr(i), m.tok(i, j), m.entries@[i].tokens@[j].delta)
}

/// `nf` is the row of some token under some address of the map.
pub open spec fn comes_from_map(m: FlowMap, nf: NetFlow) -> bool {
    exists|i: int, j: int| m.valid_index(i, j) && #[trigger] is_row_of(m, i, j, nf)
}

/// One row per address and token of the map, address by address: every
/// token of every address gives a row, every row comes from one, and no
/// address and token come twice.
pub fn flatten_flows(flow_map: &FlowMap) -> (out: Vec<NetFlow>)
    requires
        flow_map.keys_distinct(),
    ensures
        out@.map_values(|nf: NetFlow| row_view(nf)) == flatten_entries(flow_map.entries@),
        forall|i: int, j: int|
            #[trigger] flow_map.valid_index(i, j) ==> exists|p: int|
                0 <= p < out@.len() && #[trigger] is_row_of(*flow_map, i, j, out@[p]),
        forall|p: int| 0 <= p < out@.len() ==> #[trigger] comes_from_map(*flow_map, out@[p]),
        forall|p: int, q: int|
            0 <= p < q < out@.len() ==> (out@[p].address@, out@[p].token@) != (
                out@[q].address@,
                out@[q].token@,
            ),
{
    let ghost es = flow_map.entries@;
    let mut out: Vec<NetFlow> = Vec::new();
    let mut i: usize = 0;
    while i < flow_map.entries.len()
        invariant
            i <= es.len(),
            es == flow_map.entries@,
            out@.map_values(|nf: NetFlow| row_view(nf)) == flatten_entries(es.take(i as int)),
        decreases flow_map.entries.len() - i,
    {
        let entry = &flow_map.entries[i];
        let ghost base = out@.map_values(|nf: NetFlow| row_view(nf));
        let mut j: usize = 0;
        while j < entry.tokens.len()
            invariant
                i < es.len(),
                *entry == es[i as int],
                j <= entry.tokens@.len(),
                out@.map_values(|nf: NetFlow| row_view(nf)) == base + entry_rows(*entry).take(
                    j as int,
                ),
            decreases entry.tokens.len() - j,
        {
            let td = &entry.tokens[j];
            let ghost before = out@;
            let nf = NetFlow { address: entry.address.clone(), token: td.token.clone(), delta: td.delta };
            assert(row_view(nf) == entry_rows(*entry)[j as int]);
            out.push(nf);
            assert(out@ == before.push(nf));
            assert(out@.map_values(|nf: NetFlow| row_view(nf)) =~= before.map_values(
                |nf: NetFlow| row_view(nf),
            ).push(row_view(nf)));
            j = j + 1;
            assert(entry_rows(*entry).take(j as int) =~= entry_rows(*entry).take(j - 1).push(
                entry_rows(*entry)[j - 1],
            ));
            assert(out@.map_values(|nf: NetFlow| row_view(nf)) =~= base + entry_rows(*entry).take(
                j as int,
            ));
        }
        assert(entry_rows(*entry).take(j as int) =~= entry_rows(*entry));
        assert(es.take(i + 1).drop_last() =~= es.take(i as int));
        i = i + 1;
    }
    assert(es.take(es.len() as int) =~= es);
    proof {
        lemma_flatten_rows(*flow_map, out@);
    }
    out
}

// ---------------------------------------------------------------------------
// Conservation: what one address loses, another gains.
// ---------------------------------------------------------------------------

/// The sum of the changes in token `tok` over `rows`.
pub open spec fn token_total(rows: Seq<(Seq<char>, Seq<char>, i128)>, tok: Seq<char>) -> int
    decreases rows.len(),
{
    if rows.len() == 0 {
        0
    } else {
        token_total(rows.drop_last(), tok) + (if rows.last().1 == tok {
            rows.last().2 as int
        } else {
            0
        })
    }
}

/// The sum of the net changes in `tok` of the addresses `addrs`.
pub open spec fn sum_net(ts: Seq<SimpleTransfer>, addrs: Seq<Seq<char>>, tok: Seq<char>) -> int
    decreases addrs.len(),
{
    if addrs.len() == 0 {
        0
    } else {
        sum_net(ts, addrs.drop_last(), tok) + net_flow(ts, addrs.last(), tok)
    }
}

/// How often `x` occurs in `addrs`.
pub open spec fn count_of(addrs: Seq<Seq<char>>, x: Seq<char>) -> int
    decreases addrs.len(),
{
    if addrs.len() == 0 {
        0
    } else {
        count_of(addrs.drop_last(), x) + (if addrs.last() == x {
            1int
        } else {
            0
        })
    }
}

proof fn lemma_token_total_concat(
    a: Seq<(Seq<char>, Seq<char>, i128)>,
    b: Seq<(Seq<char>, Seq<char>, i128)>,
    tok: Seq<char>,
)
    ensures
        token_total(a + b, tok) == token_total(a, tok) + token_total(b, tok),
    decreases b.len(),
{
    if b.len() > 0 {
        assert((a + b).drop_last() =~= a + b.drop_last());
        lemma_token_total_concat(a, b.drop_last(), tok);
    } else {
        assert(a + b =~= a);
    }
}

proof fn lemma_count_distinct(addrs: Seq<Seq<char>>, x: Seq<char>)
    requires
        addrs.no_duplicates(),
    ensures
        count_of(addrs, x) == (if addrs.contains(x) {
            1int
        } else {
            0
        }),
    decreases addrs.len(),
{
    if addrs.len() > 0 {
        let p = addrs.drop_last();
        assert(p.no_duplicates());
        lemma_count_distinct(p, x);
        if addrs.last() == x {
            assert(!p.contains(x)) by {
                if p.contains(x) {
                    let w = choose|w: int| 0 <= w < p.len() && p[w] == x;
                    assert(addrs[w] == addrs[addrs.len() - 1]);
                }
            }
        }
        if p.contains(x) {
            let w = choose|w: int| 0 <= w < p.len() && p[w] == x;
            assert(addrs[w] == x);
        }
        if addrs.contains(x) && addrs.last() != x {
            let w = choose|w: int| 0 <= w < addrs.len() && addrs[w] == x;
            assert(p[w] == x);
        }
    }
}

proof fn lemma_sum_net_step(ts: Seq<SimpleTransfer>, addrs: Seq<Seq<char>>, tok: Seq<char>)
    requires
        ts.len() > 0,
    ensures
        sum_net(ts, addrs, tok) == sum_net(ts.drop_last(), addrs, tok) + (if ts.last().token@
            == tok {
            clamp_amount(ts.last().amount) * count_of(addrs, ts.last().to@) - clamp_amount(
                ts.last().amount,
            ) * count_of(addrs, ts.last().from@)
        } else {
            0
        }),
    decreases addrs.len(),
{
    if addrs.len() > 0 {
        lemma_sum_net_step(ts, addrs.drop_last(), tok);
        let c = clamp_amount(ts.last().amount);
        let n1 = count_of(addrs.drop_last(), ts.last().to@);
        let n2 = count_of(addrs.drop_last(), ts.last().from@);
        assert(c * (n1 + 1) == c * n1 + c) by (nonlinear_arith);
        assert(c * (n2 + 1) == c * n2 + c) by (nonlinear_arith);
    }
}

/// Summed over a list of distinct addresses that includes every sender and
/// receiver, the net changes of any one token cancel out.
pub proof fn lemma_sum_net_zero(ts: Seq<SimpleTransfer>, addrs: Seq<Seq<char>>, tok: Seq<char>)
    requires
        addrs.no_duplicates(),
        forall|k: int| 0 <= k < ts.len() ==> addrs.contains(#[trigger] ts[k].from@) && addrs.contains(
            ts[k].to@,
        ),
    ensures
        sum_net(ts, addrs, tok) == 0,
    decreases ts.len(),
{
    if ts.len() == 0 {
        lemma_sum_net_empty(ts, addrs, tok);
    } else {
        let p = ts.drop_last();
        assert forall|k: int| 0 <= k < p.len() implies addrs.contains(#[trigger] p[k].from@)
            && addrs.contains(p[k].to@) by {
            assert(p[k] == ts[k]);
        }
        lemma_sum_net_zero(p, addrs, tok);
        lemma_sum_net_step(ts, addrs, tok);
        assert(addrs.contains(ts[ts.len() - 1].from@));
        lemma_count_distinct(addrs, ts.last().to@);
        lemma_count_distinct(addrs, ts.last().from@);
    }
}

proof fn lemma_sum_net_empty(ts: Seq<SimpleTransfer>, addrs: Seq<Seq<char>>, tok: Seq<char>)
    requires
        ts.len() == 0,
    ensures
        sum_net(ts, addrs, tok) == 0,
    decreases addrs.len(),
{
    if addrs.len() > 0 {
        lemma_sum_net_empty(ts, addrs.drop_last(), tok);
    }
}

/// The addresses of a flow map, in entry order.
pub open spec fn map_addresses(m: FlowMap) -> Seq<Seq<char>> {
    Seq::new(m.len() as nat, |i: int| m.addr(i))
}

proof fn lemma_entry_rows_total(m: FlowMap, i: int, tok: Seq<char>, ts: Seq<SimpleTransfer>)
    requires
        is_net_flow_map(ts, m),
        0 <= i < m.len(),
    ensures
        token_total(entry_rows(m.entries@[i]), tok) == net_flow(ts, m.addr(i), tok),
{
    let e = m.entries@[i];
    lemma_rows_prefix_total(m, i, tok, ts, e.tokens@.len() as int);
    assert(entry_rows(e).take(e.tokens@.len() as int) =~= entry_rows(e));
    if !(exists|j: int| 0 <= j < m.n_tokens(i) && m.tok(i, j) == tok) {
        if touches(ts, m.addr(i), tok) {
            assert(m.has_key(m.addr(i), tok));
            let (i1, j1) = choose|i1: int, j1: int|
                #![trigger m.tok(i1, j1)]
                m.valid_index(i1, j1) && m.addr(i1) == m.addr(i) && m.tok(i1, j1) == tok;
            assert(i1 == i);
        }
        lemma_untouched_net_zero(ts, m.addr(i), tok);
    }
}

proof fn lemma_rows_prefix_total(m: FlowMap, i: int, tok: Seq<char>, ts: Seq<SimpleTransfer>, n: int)
    requires
        is_net_flow_map(ts, m),
        0 <= i < m.len(),
        0 <= n <= m.n_tokens(i),
    ensures
        token_total(entry_rows(m.entries@[i]).take(n), tok) == (if exists|j: int|
            0 <= j < n && m.tok(i, j) == tok {
            net_flow(ts, m.addr(i), tok)
        } else {
            0
        }),
    decreases n,
{
    let rows = entry_rows(m.entries@[i]);
    if n > 0 {
        lemma_rows_prefix_total(m, i, tok, ts, n - 1);
        assert(rows.take(n).drop_last() =~= rows.take(n - 1));
        assert(rows.take(n).last() == rows[n - 1]);
        assert(rows[n - 1].1 == m.tok(i, n - 1));
        assert(rows[n - 1].2 as int == m.delta(i, n - 1));
        assert(m.valid_index(i, n - 1));
        if m.tok(i, n - 1) == tok {
            assert(!(exists|j: int| 0 <= j < n - 1 && m.tok(i, j) == tok)) by {
                if exists|j: int| 0 <= j < n - 1 && m.tok(i, j) == tok {
                    let j = choose|j: int| 0 <= j < n - 1 && m.tok(i, j) == tok;
                    assert(m.valid_index(i, j));
                    assert(m.tok(i, j) != m.tok(i, n - 1));
                }
            }
        } else {
            if exists|j: int| 0 <= j < n && m.tok(i, j) == tok {
                let j = choose|j: int| 0 <= j < n && m.tok(i, j) == tok;
                assert(j < n - 1);
            }
        }
    } else {
        assert(rows.take(0).len() == 0);
    }
}

proof fn lemma_flatten_total(m: FlowMap, tok: Seq<char>, ts: Seq<SimpleTransfer>, n: int)
    requires
        is_net_flow_map(ts, m),
        0 <= n <= m.len(),
    ensures
        token_total(flatten_entries(m.entries@.take(n)), tok) == sum_net(
            ts,
            map_addresses(m).take(n),
            tok,
        ),
    decreases n,
{
    if n > 0 {
        lemma_flatten_total(m, tok, ts, n - 1);
        let es = m.entries@.take(n);
        assert(es.drop_last() =~= m.entries@.take(n - 1));
        assert(map_addresses(m).take(n).drop_last() =~= map_addresses(m).take(n - 1));
        lemma_token_total_concat(flatten_entries(es.drop_last()), entry_rows(es.last()), tok);
        lemma_entry_rows_total(m, n - 1, tok, ts);
    } else {
        assert(m.entries@.take(0) =~= Seq::<AddressFlows>::empty());
        assert(map_addresses(m).take(0) =~= Seq::<Seq<char>>::empty());
    }
}

/// Law (conservation): in the net flows of any transfer set, the changes of
/// each token add up to zero, since every amount one address loses another gains.
pub proof fn lemma_net_flows_balance(ts: Seq<SimpleTransfer>, m: FlowMap, tok: Seq<char>)
    requires
        is_net_flow_map(ts, m),
    ensures
        token_total(flatten_entries(m.entries@), tok) == 0,
{
    let addrs = map_addresses(m);
    assert(addrs.no_duplicates()) by {
        assert forall|i1: int, i2: int| 0 <= i1 < addrs.len() && 0 <= i2 < addrs.len() && i1 != i2 implies addrs[i1] != addrs[i2] by {
            assert(m.addr(i1) != m.addr(i2));
        }
    }
    assert forall|k: int| 0 <= k < ts.len() implies addrs.contains(#[trigger] ts[k].from@)
        && addrs.contains(ts[k].to@) by {
        assert(touches_one(ts[k], ts[k].from@, ts[k].token@));
        assert(touches_one(ts[k], ts[k].to@, ts[k].token@));
        assert(touches(ts, ts[k].from@, ts[k].token@));
        assert(touches(ts, ts[k].to@, ts[k].token@));
        assert(m.has_key(ts[k].from@, ts[k].token@));
        assert(m.has_key(ts[k].to@, ts[k].token@));
        let (i1, j1) = choose|i1: int, j1: int|
            #![trigger m.tok(i1, j1)]
            m.valid_index(i1, j1) && m.addr(i1) == ts[k].from@ && m.tok(i1, j1) == ts[k].token@;
        assert(addrs[i1] == ts[k].from@);
        let (i2, j2) = choose|i2: int, j2: int|
            #![trigger m.tok(i2, j2)]
            m.valid_index(i2, j2) && m.addr(i2) == ts[k].to@ && m.tok(i2, j2) == ts[k].token@;
        assert(addrs[i2] == ts[k].to@);
    }
    lemma_sum_net_zero(ts, addrs, tok);
    lemma_flatten_total(m, tok, ts, m.len());
    assert(m.entries@.take(m.len()) =~= m.entries@);
    assert(addrs.take(m.len()) =~= addrs);
}


/// `d` has the sign asked for: negative when `negative`, positive otherwise.
pub open spec fn has_sign(d: int, negative: bool) -> bool {
    if negative {
        d < 0
    } else {
        d > 0
    }
}

/// Token `j` of entry `i` is `tok` and its change has the given sign.
pub open spec fn signed_token_at(m: FlowMap, i: int, j: int, tok: Seq<char>, negative: bool) -> bool {
    m.valid_index(i, j) && m.tok(i, j) == tok && has_sign(m.delta(i, j), negative)
}

/// Some string of `list` has the characters `t`.
pub open spec fn seq_has(list: Seq<String>, t: Seq<char>) -> bool {
    exists|p: int| 0 <= p < list.len() && list[p]@ == t
}

/// Entry `i` lists token `tok` with a change of the given sign.
pub open spec fn entry_has_signed_token(m: FlowMap, i: int, tok: Seq<char>, negative: bool) -> bool {
    exists|j: int| #[trigger] signed_token_at(m, i, j, tok, negative)
}

/// The tokens of entry `i` whose change has the given sign, in entry order.
pub fn tokens_with_sign(m: &FlowMap, i: usize, negative: bool) -> (r: Vec<String>)
    requires
        m.wf(),
        i < m.len(),
    ensures
        forall|p: int|
            #![trigger r@[p]]
            0 <= p < r@.len() ==> entry_has_signed_token(*m, i as int, r@[p]@, negative),
        forall|j: int|
            #![trigger m.tok(i as int, j)]
            m.valid_index(i as int, j) && has_sign(m.delta(i as int, j), negative) ==> seq_has(
                r@,
                m.tok(i as int, j),
            ),
        forall|p: int, q: int| 0 <= p < r@.len() && 0 <= q < r@.len() && p != q ==> r@[p]@ != r@[q]@,
{
    let ghost ii = i as int;
    let ghost mut idx: Seq<int> = Seq::empty();
    let mut r: Vec<String> = Vec::new();
    let mut j: usize = 0;
    while j < m.entries[i].tokens.len()
        invariant
            m.wf(),
            i < m.len(),
            ii == i as int,
            j <= m.n_tokens(ii),
            idx.len() == r@.len(),
            forall|p: int|
                #![trigger idx[p]]
                0 <= p < r@.len() ==> 0 <= idx[p] < j && m.tok(ii, idx[p]) == r@[p]@ && has_sign(
                    m.delta(ii, idx[p]),
                    negative,
                ),
            forall|p: int, q: int| 0 <= p < q < r@.len() ==> idx[p] < idx[q],
            forall|j1: int|
                #![trigger m.delta(ii, j1)]
                0 <= j1 < j && has_sign(m.delta(ii, j1), negative) ==> exists|p: int|
                    0 <= p < r@.len() && idx[p] == j1,
        decreases m.entries[i as int].tokens@.len() - j,
    {
        let td = &m.entries[i].tokens[j];
        let ghost jj = j as int;
        assert(td.delta as int == m.delta(ii, jj));
        assert(td.token@ == m.tok(ii, jj));
        let keep = if negative {
            td.delta < 0
        } else {
            td.delta > 0
        };
        let ghost before = r@;
        let ghost idx0 = idx;
        if keep {
            r.push(td.token.clone());
            proof {
                idx = idx.push(jj);
            }
            assert(r@[before.len() as int]@ == m.tok(ii, jj));
        }
        assert forall|p: int, q: int| 0 <= p < q < r@.len() implies idx[p] < idx[q] by {
            if q == before.len() {
                assert(idx[p] == idx0[p]);
            } else {
                assert(idx[p] == idx0[p]);
                assert(idx[q] == idx0[q]);
            }
        }
        assert forall|j1: int|
            #![trigger m.delta(ii, j1)]
            0 <= j1 < jj + 1 && has_sign(m.delta(ii, j1), negative) implies exists|p: int|
                0 <= p < r@.len() && idx[p] == j1 by {
            if j1 < jj {
                assert(m.tok(ii, j1) == m.tok(ii, j1));
                let p = choose|p: int| 0 <= p < before.len() && idx0[p] == j1;
                assert(idx[p] == idx0[p]);
            } else {
                assert(idx[before.len() as int] == j1);
            }
        }
        assert forall|p: int| #![trigger idx[p]] 0 <= p < r@.len() implies 0 <= idx[p] < jj + 1
            && m.tok(ii, idx[p]) == r@[p]@ && has_sign(m.delta(ii, idx[p]), negative) by {
            if p < before.len() {
                assert(r@[p] == before[p]);
                assert(idx[p] == idx0[p]);
            }
        }
        j = j + 1;
    }
    proof {
        assert forall|p: int| #![trigger r@[p]] 0 <= p < r@.len() implies entry_has_signed_token(
            *m,
            i as int,
            r@[p]@,
            negative,
        ) by {
            let w = idx[p];
            assert(m.valid_index(i as int, w));
            assert(signed_token_at(*m, i as int, w, r@[p]@, negative));
        }
        assert forall|j1: int|
            #![trigger m.tok(ii, j1)]
            m.valid_index(ii, j1) && has_sign(m.delta(ii, j1), negative) implies seq_has(
                r@,
                m.tok(ii, j1),
            ) by {
            assert(0 <= j1 < j);
            let p = choose|p: int| 0 <= p < r@.len() && idx[p] == j1;
            assert(m.tok(ii, idx[p]) == r@[p]@);
        }
        assert forall|p: int, q: int|
            0 <= p < r@.len() && 0 <= q < r@.len() && p != q implies r@[p]@ != r@[q]@ by {
            assert(m.valid_index(ii, idx[p]));
            assert(m.valid_index(ii, idx[q]));
            if p < q {
                assert(idx[p] < idx[q]);
            } else {
                assert(idx[q] < idx[p]);
            }
            assert(m.tok(ii, idx[p]) != m.tok(ii, idx[q]));
        }
    }
    r
}

} // verus!
