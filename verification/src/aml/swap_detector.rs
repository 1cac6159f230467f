//! Swaps: an address that ends up with less of one token and more of another.
use vstd::prelude::*;

use crate::aml::flow_engine::{
    compute_net_flows, entry_has_signed_token, has_sign, is_net_flow_map, net_flow,
    net_flows_fit, seq_has, signed_token_at, tokens_with_sign,
};
use crate::aml::types::{zero_address, AmlEvent, SimpleTransfer, ZERO_ADDRESS};
use crate::text::{owned, same};

verus! {

/// Over `ts`, address `u` (not the zero address) gave up token `x` and
/// received a different token `y`.
pub open spec fn is_swap(ts: Seq<SimpleTransfer>, u: Seq<char>, x: Seq<char>, y: Seq<char>) -> bool {
    &&& u != zero_address()
    &&& x != y
    &&& net_flow(ts, u, x) < 0
    &&& net_flow(ts, u, y) > 0
}

/// The user, token in and token out of a swap event.
pub open spec fn swap_of(e: AmlEvent) -> Option<(Seq<char>, Seq<char>, Seq<char>)> {
    match e {
        AmlEvent::Swap { user, token_in, token_out } => Some((user@, token_in@, token_out@)),
        _ => None,
    }
}

/// `e` is a swap event that `ts` justifies.
pub open spec fn valid_swap_event(ts: Seq<SimpleTransfer>, e: AmlEvent) -> bool {
    match e {
        AmlEvent::Swap { user, token_in, token_out } => is_swap(ts, user@, token_in@, token_out@),
        _ => false,
    }
}

/// `events` holds the swap `(u, x, y)`.
pub open spec fn lists_swap(events: Seq<AmlEvent>, u: Seq<char>, x: Seq<char>, y: Seq<char>) -> bool {
    exists|p: int| 0 <= p < events.len() && #[trigger] swap_of(events[p]) == Some((u, x, y))
}

fn has_swap(events: &Vec<AmlEvent>, u: &String, x: &String, y: &String) -> (r: bool)
    ensures
        r == lists_swap(events@, u@, x@, y@),
{
    let mut p: usize = 0;
    while p < events.len()
        invariant
            p <= events@.len(),
            forall|q: int| 0 <= q < p ==> swap_of(#[trigger] events@[q]) != Some((u@, x@, y@)),
        decreases events.len() - p,
    {
        match &events[p] {
            AmlEvent::Swap { user, token_in, token_out } => {
                if same(user, u) && same(token_in, x) && same(token_out, y) {
                    assert(swap_of(events@[p as int]) == Some((u@, x@, y@)));
                    return true;
                }
            },
            _ => {},
        }
        p = p + 1;
    }
    false
}

/// One swap event per address and pair of tokens where the address lost the
/// first token and gained the second (the zero address excluded).
pub fn detect_swaps(transfers: &[SimpleTransfer]) -> (events: Vec<AmlEvent>)
    requires
        net_flows_fit(transfers@),
    ensures
        forall|p: int| 0 <= p < events@.len() ==> valid_swap_event(transfers@, #[trigger] events@[p]),
        forall|u: Seq<char>, x: Seq<char>, y: Seq<char>| #[trigger]
            is_swap(transfers@, u, x, y) ==> lists_swap(events@, u, x, y),
        forall|p: int, q: int|
            0 <= p < q < events@.len() ==> swap_of(events@[p]) != swap_of(events@[q]),
{
    let ghost ts = transfers@;
    let flows = compute_net_flows(transfers);
    let zero = owned(ZERO_ADDRESS);
    let mut events: Vec<AmlEvent> = Vec::new();
    let mut i: usize = 0;
    while i < flows.entries.len()
        invariant
            ts == transfers@,
            is_net_flow_map(ts, flows),
            zero@ == zero_address(),
            i <= flows.len(),
            forall|p: int| 0 <= p < events@.len() ==> valid_swap_event(ts, #[trigger] events@[p]),
            forall|p: int, q: int|
                0 <= p < q < events@.len() ==> swap_of(events@[p]) != swap_of(events@[q]),
            forall|i1: int, j1: int, j2: int|
                #![trigger flows.tok(i1, j1), flows.tok(i1, j2)]
                0 <= i1 < i && flows.valid_index(i1, j1) && flows.valid_index(i1, j2) && flows.addr(
                    i1,
                ) != zero_address() && flows.delta(i1, j1) < 0 && flows.delta(i1, j2) > 0
                    ==> lists_swap(events@, flows.addr(i1), flows.tok(i1, j1), flows.tok(i1, j2)),
        decreases flows.entries.len() - i,
    {
        let address = &flows.entries[i].address;
        if same(address, &zero) {
            i = i + 1;
            continue;
        }
        let sent = tokens_with_sign(&flows, i, true);
        let received = tokens_with_sign(&flows, i, false);
        let ghost events_at_start = events@;
        if sent.len() == 0 || received.len() == 0 {
            proof {
                assert forall|j1: int, j2: int|
                    #![trigger flows.tok(i as int, j1), flows.tok(i as int, j2)]
                    flows.valid_index(i as int, j1) && flows.valid_index(i as int, j2)
                        && flows.delta(i as int, j1) < 0 && flows.delta(i as int, j2)
                        > 0 implies false by {
                    assert(has_sign(flows.delta(i as int, j1), true));
                    assert(has_sign(flows.delta(i as int, j2), false));
                    assert(seq_has(sent@, flows.tok(i as int, j1)));
                    assert(seq_has(received@, flows.tok(i as int, j2)));
                }
            }
            i = i + 1;
            continue;
        }
        let mut a: usize = 0;
        while a < sent.len()
            invariant
                ts == transfers@,
                is_net_flow_map(ts, flows),
                i < flows.len(),
                *address == flows.entries@[i as int].address,
                address@ != zero_address(),
                0 <= a <= sent@.len(),
                forall|p: int|
                    #![trigger sent@[p]]
                    0 <= p < sent@.len() ==> entry_has_signed_token(flows, i as int, sent@[p]@, true),
                forall|p: int|
                    #![trigger received@[p]]
                    0 <= p < received@.len() ==> entry_has_signed_token(
                        flows,
                        i as int,
                        received@[p]@,
                        false,
                    ),
                forall|p: int| 0 <= p < events@.len() ==> valid_swap_event(ts, #[trigger] events@[p]),
                forall|p: int, q: int|
                    0 <= p < q < events@.len() ==> swap_of(events@[p]) != swap_of(events@[q]),
                forall|p: int|
                    #![trigger events_at_start[p]]
                    0 <= p < events_at_start.len() ==> events@[p] == events_at_start[p],
                events_at_start.len() <= events@.len(),
                forall|i1: int, j1: int, j2: int|
                    #![trigger flows.tok(i1, j1), flows.tok(i1, j2)]
                    0 <= i1 < i && flows.valid_index(i1, j1) && flows.valid_index(i1, j2)
                        && flows.addr(i1) != zero_address() && flows.delta(i1, j1) < 0
                        && flows.delta(i1, j2) > 0 ==> lists_swap(
                        events_at_start,
                        flows.addr(i1),
                        flows.tok(i1, j1),
                        flows.tok(i1, j2),
                    ),
                forall|a1: int, b1: int|
                    #![trigger sent@[a1], received@[b1]]
                    0 <= a1 < a && 0 <= b1 < received@.len() && sent@[a1]@ != received@[b1]@
                        ==> lists_swap(events@, address@, sent@[a1]@, received@[b1]@),
            decreases sent.len() - a,
        {
            let mut b: usize = 0;
            while b < received.len()
                invariant
                    ts == transfers@,
                    is_net_flow_map(ts, flows),
                    i < flows.len(),
                    *address == flows.entries@[i as int].address,
                    address@ != zero_address(),
                    0 <= a < sent@.len(),
                    0 <= b <= received@.len(),
                    forall|p: int|
                        #![trigger sent@[p]]
                        0 <= p < sent@.len() ==> entry_has_signed_token(
                            flows,
                            i as int,
                            sent@[p]@,
                            true,
                        ),
                    forall|p: int|
                        #![trigger received@[p]]
                        0 <= p < received@.len() ==> entry_has_signed_token(
                            flows,
                            i as int,
                            received@[p]@,
                            false,
                        ),
                    forall|p: int|
                        0 <= p < events@.len() ==> valid_swap_event(ts, #[trigger] events@[p]),
                    forall|p: int, q: int|
                        0 <= p < q < events@.len() ==> swap_of(events@[p]) != swap_of(events@[q]),
                    forall|p: int|
                        #![trigger events_at_start[p]]
                        0 <= p < events_at_start.len() ==> events@[p] == events_at_start[p],
                    events_at_start.len() <= events@.len(),
                    forall|i1: int, j1: int, j2: int|
                        #![trigger flows.tok(i1, j1), flows.tok(i1, j2)]
                        0 <= i1 < i && flows.valid_index(i1, j1) && flows.valid_index(i1, j2)
                            && flows.addr(i1) != zero_address() && flows.delta(i1, j1) < 0
                            && flows.delta(i1, j2) > 0 ==> lists_swap(
                            events_at_start,
                            flows.addr(i1),
                            flows.tok(i1, j1),
                            flows.tok(i1, j2),
                        ),
                    forall|a1: int, b1: int|
                        #![trigger sent@[a1], received@[b1]]
                        0 <= a1 < a && 0 <= b1 < received@.len() && sent@[a1]@ != received@[b1]@
                            ==> lists_swap(events@, address@, sent@[a1]@, received@[b1]@),
                    forall|b1: int|
                        #![trigger received@[b1]]
                        0 <= b1 < b && sent@[a as int]@ != received@[b1]@ ==> lists_swap(
                            events@,
                            address@,
                            sent@[a as int]@,
                            received@[b1]@,
                        ),
                decreases received.len() - b,
            {
                let token_in = &sent[a];
                let token_out = &received[b];
                if !same(token_in, token_out) && !has_swap(&events, address, token_in, token_out) {
                    let ghost before = events@;
                    let e = AmlEvent::Swap {
                        user: address.clone(),
                        token_in: token_in.clone(),
                        token_out: token_out.clone(),
                    };
                    proof {
                        assert(entry_has_signed_token(flows, i as int, token_in@, true));
                        assert(entry_has_signed_token(flows, i as int, token_out@, false));
                        let j1 = choose|j1: int| #[trigger]
                            signed_token_at(flows, i as int, j1, token_in@, true);
                        let j2 = choose|j2: int| #[trigger]
                            signed_token_at(flows, i as int, j2, token_out@, false);
                        assert(flows.tok(i as int, j1) == token_in@);
                        assert(flows.tok(i as int, j2) == token_out@);
                        assert(valid_swap_event(ts, e));
                    }
                    events.push(e);
                    proof {
                        assert(swap_of(events@[before.len() as int]) == Some(
                            (address@, token_in@, token_out@),
                        ));
                        assert forall|p: int, q: int|
                            0 <= p < q < events@.len() implies swap_of(events@[p]) != swap_of(
                            events@[q],
                        ) by {
                            if q == before.len() {
                                assert(events@[p] == before[p]);
                                assert(swap_of(before[p]) != Some((address@, token_in@, token_out@)));
                            } else {
                                assert(events@[p] == before[p]);
                                assert(events@[q] == before[q]);
                            }
                        }
                        assert forall|p: int|
                            0 <= p < events@.len() implies valid_swap_event(
                            ts,
                            #[trigger] events@[p],
                        ) by {
                            if p < before.len() {
                                assert(events@[p] == before[p]);
                            }
                        }
                        assert forall|u: Seq<char>, x: Seq<char>, y: Seq<char>|
                            lists_swap(before, u, x, y) implies lists_swap(events@, u, x, y) by {
                            let w = choose|w: int|
                                0 <= w < before.len() && #[trigger] swap_of(before[w]) == Some(
                                    (u, x, y),
                                );
                            assert(events@[w] == before[w]);
                        }
                    }
                }
                b = b + 1;
            }
            a = a + 1;
        }
        proof {
            assert forall|j1: int, j2: int|
                #![trigger flows.tok(i as int, j1), flows.tok(i as int, j2)]
                flows.valid_index(i as int, j1) && flows.valid_index(i as int, j2)
                    && flows.delta(i as int, j1) < 0 && flows.delta(i as int, j2)
                    > 0 implies lists_swap(
                events@,
                flows.addr(i as int),
                flows.tok(i as int, j1),
                flows.tok(i as int, j2),
            ) by {
                assert(has_sign(flows.delta(i as int, j1), true));
                assert(has_sign(flows.delta(i as int, j2), false));
                assert(seq_has(sent@, flows.tok(i as int, j1)));
                assert(seq_has(received@, flows.tok(i as int, j2)));
                let a1 = choose|a1: int|
                    0 <= a1 < sent@.len() && sent@[a1]@ == flows.tok(i as int, j1);
                let b1 = choose|b1: int|
                    0 <= b1 < received@.len() && received@[b1]@ == flows.tok(i as int, j2);
                assert(flows.tok(i as int, j1) != flows.tok(i as int, j2));
                assert(sent@[a1]@ != received@[b1]@);
            }
            assert forall|i1: int, j1: int, j2: int|
                #![trigger flows.tok(i1, j1), flows.tok(i1, j2)]
                0 <= i1 < i && flows.valid_index(i1, j1) && flows.valid_index(i1, j2)
                    && flows.addr(i1) != zero_address() && flows.delta(i1, j1) < 0 && flows.delta(
                    i1,
                    j2,
                ) > 0 implies lists_swap(events@, flows.addr(i1), flows.tok(i1, j1), flows.tok(i1, j2)) by {
                let w = choose|w: int|
                    0 <= w < events_at_start.len() && #[trigger] swap_of(events_at_start[w])
                        == Some((flows.addr(i1), flows.tok(i1, j1), flows.tok(i1, j2)));
                assert(events@[w] == events_at_start[w]);
            }
        }
        i = i + 1;
    }
    proof {
        assert forall|u: Seq<char>, x: Seq<char>, y: Seq<char>| #[trigger]
            is_swap(ts, u, x, y) implies lists_swap(events@, u, x, y) by {
            crate::aml::flow_engine::lemma_nonzero_net_touches(ts, u, x);
            crate::aml::flow_engine::lemma_nonzero_net_touches(ts, u, y);
            assert(flows.has_key(u, x));
            assert(flows.has_key(u, y));
            let (i1, j1) = choose|i1: int, j1: int|
                #![trigger flows.tok(i1, j1)]
                flows.valid_index(i1, j1) && flows.addr(i1) == u && flows.tok(i1, j1) == x;
            let (i2, j2) = choose|i2: int, j2: int|
                #![trigger flows.tok(i2, j2)]
                flows.valid_index(i2, j2) && flows.addr(i2) == u && flows.tok(i2, j2) == y;
            assert(i1 == i2);
            assert(flows.delta(i1, j1) == net_flow(ts, u, x));
            assert(flows.delta(i1, j2) == net_flow(ts, u, y));
        }
    }
    events
}

} // verus!
