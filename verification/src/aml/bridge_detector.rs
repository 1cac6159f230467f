//! Bridges: value that arrives from, or leaves to, the zero address.
use vstd::prelude::*;

use crate::aml::flow_engine::{compute_net_flows, is_net_flow_map, net_flow, net_flows_fit};
use crate::aml::types::{zero_address, AmlEvent, SimpleTransfer, ZERO_ADDRESS};
use crate::text::{owned, same};

verus! {

/// Transfer `t` moves token `tok` from `from` to `to`.
pub open spec fn transfer_matches(
    t: SimpleTransfer,
    from: Seq<char>,
    to: Seq<char>,
    tok: Seq<char>,
) -> bool {
    t.from@ == from && t.to@ == to && t.token@ == tok
}

/// Some transfer of `ts` moves token `tok` from `from` to `to`.
pub open spec fn has_transfer(
    ts: Seq<SimpleTransfer>,
    from: Seq<char>,
    to: Seq<char>,
    tok: Seq<char>,
) -> bool {
    exists|k: int| 0 <= k < ts.len() && #[trigger] transfer_matches(ts[k], from, to, tok)
}

/// `u` gained `tok` over `ts`, and some of it came from the zero address.
pub open spec fn is_bridge_in(ts: Seq<SimpleTransfer>, u: Seq<char>, tok: Seq<char>) -> bool {
    &&& u != zero_address()
    &&& net_flow(ts, u, tok) > 0
    &&& has_transfer(ts, zero_address(), u, tok)
}

/// `u` lost `tok` over `ts`, and some of it went to the zero address.
pub open spec fn is_bridge_out(ts: Seq<SimpleTransfer>, u: Seq<char>, tok: Seq<char>) -> bool {
    &&& u != zero_address()
    &&& net_flow(ts, u, tok) < 0
    &&& has_transfer(ts, u, zero_address(), tok)
}

/// Direction (`true` for in), user and token of a bridge event.
pub open spec fn bridge_of(e: AmlEvent) -> Option<(bool, Seq<char>, Seq<char>)> {
    match e {
        AmlEvent::BridgeIn { user, token } => Some((true, user@, token@)),
        AmlEvent::BridgeOut { user, token } => Some((false, user@, token@)),
        _ => None,
    }
}

/// The user of a bridge event.
pub open spec fn bridge_user(e: AmlEvent) -> Seq<char> {
    match e {
        AmlEvent::BridgeIn { user, .. } => user@,
        AmlEvent::BridgeOut { user, .. } => user@,
        _ => Seq::empty(),
    }
}

/// The token of a bridge event.
pub open spec fn bridge_token(e: AmlEvent) -> Seq<char> {
    match e {
        AmlEvent::BridgeIn { token, .. } => token@,
        AmlEvent::BridgeOut { token, .. } => token@,
        _ => Seq::empty(),
    }
}

/// `e` is a bridge event that `ts` justifies.
pub open spec fn valid_bridge_event(ts: Seq<SimpleTransfer>, e: AmlEvent) -> bool {
    match e {
        AmlEvent::BridgeIn { user, token } => is_bridge_in(ts, user@, token@),
        AmlEvent::BridgeOut { user, token } => is_bridge_out(ts, user@, token@),
        _ => false,
    }
}

/// `events` holds the bridge event `(incoming, u, tok)`.
pub open spec fn lists_bridge(events: Seq<AmlEvent>, incoming: bool, u: Seq<char>, tok: Seq<char>) -> bool {
    exists|p: int| 0 <= p < events.len() && #[trigger] bridge_of(events[p]) == Some((incoming, u, tok))
}

/// Whether some transfer moves `tok` from `from` to `to` (`Iterator::any`).
pub fn any_transfer(transfers: &[SimpleTransfer], from: &String, to: &String, tok: &String) -> (r: bool)
    ensures
        r == has_transfer(transfers@, from@, to@, tok@),
{
    let mut k: usize = 0;
    while k < transfers.len()
        invariant
            k <= transfers@.len(),
            forall|q: int|
                0 <= q < k ==> !#[trigger] transfer_matches(transfers@[q], from@, to@, tok@),
        decreases transfers.len() - k,
    {
        let t = &transfers[k];
        if same(&t.from, from) && same(&t.to, to) && same(&t.token, tok) {
            assert(transfer_matches(transfers@[k as int], from@, to@, tok@));
            return true;
        }
        k = k + 1;
    }
    false
}

/// `(a, b)` comes before `(c, d)` in row-major order.
pub open spec fn lex_lt(a: int, b: int, c: int, d: int) -> bool {
    a < c || (a == c && b < d)
}

/// With the bridge hint set: a `BridgeIn` for each address (other than the
/// zero address) and token where the address gained the token and received
/// some of it from the zero address, and a `BridgeOut` where it lost the token
/// and sent some of it to the zero address. Without the hint: nothing.
pub fn detect_bridges(transfers: &[SimpleTransfer], bridge_protocol_hint: bool) -> (events: Vec<AmlEvent>)
    requires
        net_flows_fit(transfers@),
    ensures
        !bridge_protocol_hint ==> events@.len() == 0,
        forall|p: int| 0 <= p < events@.len() ==> valid_bridge_event(transfers@, #[trigger] events@[p]),
        bridge_protocol_hint ==> forall|u: Seq<char>, tok: Seq<char>| #[trigger]
            is_bridge_in(transfers@, u, tok) ==> lists_bridge(events@, true, u, tok),
        bridge_protocol_hint ==> forall|u: Seq<char>, tok: Seq<char>| #[trigger]
            is_bridge_out(transfers@, u, tok) ==> lists_bridge(events@, false, u, tok),
        forall|p: int, q: int|
            0 <= p < q < events@.len() ==> bridge_of(events@[p]) != bridge_of(events@[q]),
{
    if !bridge_protocol_hint {
        return Vec::new();
    }
    let ghost ts = transfers@;
    let flows = compute_net_flows(transfers);
    let zero = owned(ZERO_ADDRESS);
    let mut events: Vec<AmlEvent> = Vec::new();
    let ghost mut origin: Seq<(int, int)> = Seq::empty();
    let mut i: usize = 0;
    while i < flows.entries.len()
        invariant
            ts == transfers@,
            is_net_flow_map(ts, flows),
            zero@ == zero_address(),
            i <= flows.len(),
            origin.len() == events@.len(),
            forall|p: int| 0 <= p < events@.len() ==> valid_bridge_event(ts, #[trigger] events@[p]),
            forall|p: int|
                #![trigger origin[p]]
                0 <= p < events@.len() ==> origin[p].0 < i && flows.valid_index(
                    origin[p].0,
                    origin[p].1,
                ) && bridge_of(events@[p]) is Some && bridge_user(events@[p]) == flows.addr(
                    origin[p].0,
                ) && bridge_token(events@[p]) == flows.tok(origin[p].0, origin[p].1),
            forall|p: int, q: int| 0 <= p < q < events@.len() ==> origin[p] != origin[q],
            forall|i1: int, j1: int|
                #![trigger flows.tok(i1, j1)]
                0 <= i1 < i && flows.valid_index(i1, j1) ==> (is_bridge_in(
                    ts,
                    flows.addr(i1),
                    flows.tok(i1, j1),
                ) ==> lists_bridge(events@, true, flows.addr(i1), flows.tok(i1, j1))) && (
                is_bridge_out(ts, flows.addr(i1), flows.tok(i1, j1)) ==> lists_bridge(
                    events@,
                    false,
                    flows.addr(i1),
                    flows.tok(i1, j1),
                )),
        decreases flows.entries.len() - i,
    {
        let address = &flows.entries[i].address;
        if same(address, &zero) {
            i = i + 1;
            continue;
        }
        let mut j: usize = 0;
        while j < flows.entries[i].tokens.len()
            invariant
                ts == transfers@,
                is_net_flow_map(ts, flows),
                zero@ == zero_address(),
                i < flows.len(),
                *address == flows.entries@[i as int].address,
                address@ != zero_address(),
                j <= flows.n_tokens(i as int),
                origin.len() == events@.len(),
                forall|p: int|
                    0 <= p < events@.len() ==> valid_bridge_event(ts, #[trigger] events@[p]),
                forall|p: int|
                    #![trigger origin[p]]
                    0 <= p < events@.len() ==> lex_lt(origin[p].0, origin[p].1, i as int, j as int)
                        && flows.valid_index(origin[p].0, origin[p].1) && bridge_of(events@[p]) is Some
                        && bridge_user(events@[p]) == flows.addr(origin[p].0) && bridge_token(events@[p]) == flows.tok(origin[p].0, origin[p].1),
                forall|p: int, q: int| 0 <= p < q < events@.len() ==> origin[p] != origin[q],
                forall|i1: int, j1: int|
                    #![trigger flows.tok(i1, j1)]
                    lex_lt(i1, j1, i as int, j as int) && flows.valid_index(i1, j1) ==> (
                    is_bridge_in(ts, flows.addr(i1), flows.tok(i1, j1)) ==> lists_bridge(
                        events@,
                        true,
                        flows.addr(i1),
                        flows.tok(i1, j1),
                    )) && (is_bridge_out(ts, flows.addr(i1), flows.tok(i1, j1)) ==> lists_bridge(
                        events@,
                        false,
                        flows.addr(i1),
                        flows.tok(i1, j1),
                    )),
            decreases flows.entries[i as int].tokens@.len() - j,
        {
            let token = &flows.entries[i].tokens[j].token;
            let delta = flows.entries[i].tokens[j].delta;
            let ghost before = events@;
            let ghost origin0 = origin;
            let ghost a = flows.addr(i as int);
            let ghost tk = flows.tok(i as int, j as int);
            assert(flows.valid_index(i as int, j as int));
            assert(delta as int == net_flow(ts, a, tk));
            let mut pushed = false;
            if delta > 0 && any_transfer(transfers, &zero, address, token) {
                events.push(AmlEvent::BridgeIn { user: address.clone(), token: token.clone() });
                pushed = true;
            }
            if delta < 0 && any_transfer(transfers, address, &zero, token) {
                events.push(AmlEvent::BridgeOut { user: address.clone(), token: token.clone() });
                pushed = true;
            }
            proof {
                if pushed {
                    origin = origin.push((i as int, j as int));
                    let n = before.len() as int;
                    assert(events@[n] == events@.last());
                    assert(valid_bridge_event(ts, events@[n]));
                    assert forall|p: int| 0 <= p < events@.len() implies valid_bridge_event(
                        ts,
                        #[trigger] events@[p],
                    ) by {
                        if p < n {
                            assert(events@[p] == before[p]);
                        }
                    }
                    assert forall|p: int|
                        #![trigger origin[p]]
                        0 <= p < events@.len() implies lex_lt(
                        origin[p].0,
                        origin[p].1,
                        i as int,
                        j + 1,
                    ) && flows.valid_index(origin[p].0, origin[p].1) && bridge_of(events@[p]) is Some
                        && bridge_user(events@[p]) == flows.addr(origin[p].0) && bridge_token(events@[p]) == flows.tok(origin[p].0, origin[p].1) by {
                        if p < n {
                            assert(events@[p] == before[p]);
                            assert(origin[p] == origin0[p]);
                        }
                    }
                    assert forall|p: int, q: int|
                        0 <= p < q < events@.len() implies origin[p] != origin[q] by {
                        if q == n {
                            assert(origin[p] == origin0[p]);
                            assert(lex_lt(origin0[p].0, origin0[p].1, i as int, j as int));
                        } else {
                            assert(origin[p] == origin0[p]);
                            assert(origin[q] == origin0[q]);
                        }
                    }
                    assert forall|d: bool, u: Seq<char>, t: Seq<char>|
                        lists_bridge(before, d, u, t) implies lists_bridge(events@, d, u, t) by {
                        let w = choose|w: int|
                            0 <= w < before.len() && #[trigger] bridge_of(before[w]) == Some((d, u, t));
                        assert(events@[w] == before[w]);
                    }
                }
                assert forall|i1: int, j1: int|
                    #![trigger flows.tok(i1, j1)]
                    lex_lt(i1, j1, i as int, j + 1) && flows.valid_index(i1, j1) implies (
                    is_bridge_in(ts, flows.addr(i1), flows.tok(i1, j1)) ==> lists_bridge(
                        events@,
                        true,
                        flows.addr(i1),
                        flows.tok(i1, j1),
                    )) && (is_bridge_out(ts, flows.addr(i1), flows.tok(i1, j1)) ==> lists_bridge(
                        events@,
                        false,
                        flows.addr(i1),
                        flows.tok(i1, j1),
                    )) by {
                    if i1 == i && j1 == j {
                        if is_bridge_in(ts, a, tk) {
                            assert(bridge_of(events@[before.len() as int]) == Some((true, a, tk)));
                        }
                        if is_bridge_out(ts, a, tk) {
                            assert(bridge_of(events@[before.len() as int]) == Some((false, a, tk)));
                        }
                    }
                }
            }
            j = j + 1;
        }
        i = i + 1;
    }
    proof {
        assert forall|u: Seq<char>, tok: Seq<char>| #[trigger]
            is_bridge_in(ts, u, tok) implies lists_bridge(events@, true, u, tok) by {
            crate::aml::flow_engine::lemma_nonzero_net_touches(ts, u, tok);
            assert(flows.has_key(u, tok));
            let (i1, j1) = choose|i1: int, j1: int|
                #![trigger flows.tok(i1, j1)]
                flows.valid_index(i1, j1) && flows.addr(i1) == u && flows.tok(i1, j1) == tok;
        }
        assert forall|u: Seq<char>, tok: Seq<char>| #[trigger]
            is_bridge_out(ts, u, tok) implies lists_bridge(events@, false, u, tok) by {
            crate::aml::flow_engine::lemma_nonzero_net_touches(ts, u, tok);
            assert(flows.has_key(u, tok));
            let (i1, j1) = choose|i1: int, j1: int|
                #![trigger flows.tok(i1, j1)]
                flows.valid_index(i1, j1) && flows.addr(i1) == u && flows.tok(i1, j1) == tok;
        }
        assert forall|p: int, q: int|
            0 <= p < q < events@.len() implies bridge_of(events@[p]) != bridge_of(events@[q]) by {
            let (a1, b1) = origin[p];
            let (a2, b2) = origin[q];
            if a1 != a2 {
                assert(flows.addr(a1) != flows.addr(a2));
            } else {
                assert(flows.tok(a1, b1) != flows.tok(a1, b2));
            }
        }
    }
    events
}

} // verus!
