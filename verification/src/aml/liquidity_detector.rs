//! Liquidity provision: several tokens go out and one (the pool token) comes
//! back, or the reverse.
use vstd::prelude::*;

use crate::aml::flow_engine::{
    compute_net_flows, entry_has_signed_token, has_sign, is_net_flow_map, net_flow,
    net_flows_fit, seq_has, signed_token_at, tokens_with_sign,
};
use crate::aml::types::{zero_address, AmlEvent, FlowMap, SimpleTransfer, ZERO_ADDRESS};
use crate::text::{owned, same};

verus! {

/// Without an actor every address is considered; with one, only that address.
pub open spec fn actor_allows(actor: Option<Seq<char>>, u: Seq<char>) -> bool {
    match actor {
        Some(a) => a == u,
        None => true,
    }
}

/// The view of an optional actor.
pub open spec fn actor_view(actor: Option<&str>) -> Option<Seq<char>> {
    match actor {
        Some(a) => Some(a@),
        None => None,
    }
}

/// `u` ended with a net change of the given sign in at least two tokens.
pub open spec fn two_with_sign(ts: Seq<SimpleTransfer>, u: Seq<char>, negative: bool) -> bool {
    exists|t1: Seq<char>, t2: Seq<char>|
        t1 != t2 && #[trigger] has_sign(net_flow(ts, u, t1), negative) && #[trigger] has_sign(
            net_flow(ts, u, t2),
            negative,
        )
}

/// `lp` is the only token in which `u` ended with a net change of the given sign.
pub open spec fn only_with_sign(ts: Seq<SimpleTransfer>, u: Seq<char>, lp: Seq<char>, negative: bool) -> bool {
    has_sign(net_flow(ts, u, lp), negative) && forall|t: Seq<char>|
        #[trigger] has_sign(net_flow(ts, u, t), negative) ==> t == lp
}

/// Exactly one token had a net change of the given sign for `u`.
pub open spec fn exactly_one_with_sign(ts: Seq<SimpleTransfer>, u: Seq<char>, negative: bool) -> bool {
    exists|lp: Seq<char>| #[trigger] only_with_sign(ts, u, lp, negative)
}

/// Liquidity added (`adding`) or removed by `u`: the address gave up at least
/// two tokens and received exactly one (adding), or the reverse (removing).
pub open spec fn is_liquidity_change(
    ts: Seq<SimpleTransfer>,
    actor: Option<Seq<char>>,
    u: Seq<char>,
    adding: bool,
) -> bool {
    &&& u != zero_address()
    &&& actor_allows(actor, u)
    &&& two_with_sign(ts, u, adding)
    &&& exactly_one_with_sign(ts, u, !adding)
}

/// `list` names, once each, exactly the tokens in which `u` ended with a net
/// change of the given sign.
pub open spec fn lists_signed_tokens(
    ts: Seq<SimpleTransfer>,
    u: Seq<char>,
    list: Seq<String>,
    negative: bool,
) -> bool {
    &&& forall|p: int, q: int| 0 <= p < list.len() && 0 <= q < list.len() && p != q ==> list[p]@ != list[q]@
    &&& forall|p: int| 0 <= p < list.len() ==> has_sign(net_flow(ts, u, #[trigger] list[p]@), negative)
    &&& forall|t: Seq<char>| #[trigger] has_sign(net_flow(ts, u, t), negative) ==> seq_has(list, t)
}

/// Kind (`true` for adding) and user of a liquidity event.
pub open spec fn liquidity_of(e: AmlEvent) -> Option<(bool, Seq<char>)> {
    match e {
        AmlEvent::LiquidityAdd { user, .. } => Some((true, user@)),
        AmlEvent::LiquidityRemove { user, .. } => Some((false, user@)),
        _ => None,
    }
}

/// Whether a liquidity event adds liquidity.
pub open spec fn liquidity_adding(e: AmlEvent) -> bool {
    e is LiquidityAdd
}

/// The user of a liquidity event.
pub open spec fn liquidity_user(e: AmlEvent) -> Seq<char> {
    match e {
        AmlEvent::LiquidityAdd { user, .. } => user@,
        AmlEvent::LiquidityRemove { user, .. } => user@,
        _ => Seq::empty(),
    }
}

/// `e` is a liquidity event that `ts` justifies, with its pool token and the
/// full list of the other tokens.
pub open spec fn valid_liquidity_event(ts: Seq<SimpleTransfer>, actor: Option<Seq<char>>, e: AmlEvent) -> bool {
    match e {
        AmlEvent::LiquidityAdd { user, lp_token, sent_tokens } => {
            &&& is_liquidity_change(ts, actor, user@, true)
            &&& only_with_sign(ts, user@, lp_token@, false)
            &&& lists_signed_tokens(ts, user@, sent_tokens@, true)
        },
        AmlEvent::LiquidityRemove { user, lp_token, received_tokens } => {
            &&& is_liquidity_change(ts, actor, user@, false)
            &&& only_with_sign(ts, user@, lp_token@, true)
            &&& lists_signed_tokens(ts, user@, received_tokens@, false)
        },
        _ => false,
    }
}

/// `events` holds a liquidity event of the given kind for `u`.
pub open spec fn lists_liquidity(events: Seq<AmlEvent>, adding: bool, u: Seq<char>) -> bool {
    exists|p: int| 0 <= p < events.len() && #[trigger] liquidity_of(events[p]) == Some((adding, u))
}

/// The signed-token list of entry `i` names exactly the tokens in which its
/// address ended with that sign.
proof fn lemma_entry_list_complete(
    ts: Seq<SimpleTransfer>,
    m: FlowMap,
    i: int,
    list: Seq<String>,
    negative: bool,
)
    requires
        is_net_flow_map(ts, m),
        0 <= i < m.len(),
        forall|p: int|
            #![trigger list[p]]
            0 <= p < list.len() ==> entry_has_signed_token(m, i, list[p]@, negative),
        forall|j: int|
            #![trigger m.tok(i, j)]
            m.valid_index(i, j) && has_sign(m.delta(i, j), negative) ==> seq_has(list, m.tok(i, j)),
        forall|p: int, q: int| 0 <= p < list.len() && 0 <= q < list.len() && p != q ==> list[p]@ != list[q]@,
    ensures
        lists_signed_tokens(ts, m.addr(i), list, negative),
{
    let u = m.addr(i);
    assert forall|p: int| 0 <= p < list.len() implies has_sign(
        net_flow(ts, u, #[trigger] list[p]@),
        negative,
    ) by {
        assert(entry_has_signed_token(m, i, list[p]@, negative));
        let j = choose|j: int| #[trigger] signed_token_at(m, i, j, list[p]@, negative);
        assert(m.tok(i, j) == list[p]@);
    }
    assert forall|t: Seq<char>| #[trigger] has_sign(net_flow(ts, u, t), negative) implies seq_has(
        list,
        t,
    ) by {
        crate::aml::flow_engine::lemma_nonzero_net_touches(ts, u, t);
        assert(m.has_key(u, t));
        let (i1, j1) = choose|i1: int, j1: int|
            #![trigger m.tok(i1, j1)]
            m.valid_index(i1, j1) && m.addr(i1) == u && m.tok(i1, j1) == t;
        assert(i1 == i);
        assert(has_sign(m.delta(i, j1), negative));
    }
}

/// The liquidity event of entry `i`, if its address added or removed liquidity.
fn entry_liquidity_event(
    Ghost(ts): Ghost<Seq<SimpleTransfer>>,
    Ghost(av): Ghost<Option<Seq<char>>>,
    flows: &FlowMap,
    i: usize,
) -> (r: Option<AmlEvent>)
    requires
        is_net_flow_map(ts, *flows),
        i < flows.len(),
        flows.addr(i as int) != zero_address(),
        actor_allows(av, flows.addr(i as int)),
    ensures
        match r {
            Some(e) => valid_liquidity_event(ts, av, e) && liquidity_of(e) is Some
                && liquidity_user(e) == flows.addr(i as int) && is_liquidity_change(
                ts,
                av,
                flows.addr(i as int),
                liquidity_adding(e),
            ) && forall|adding: bool|
                is_liquidity_change(ts, av, flows.addr(i as int), adding) ==> adding
                    == liquidity_adding(e),
            None => forall|adding: bool| !is_liquidity_change(ts, av, flows.addr(i as int), adding),
        },
{
    let ghost u = flows.addr(i as int);
    let address = &flows.entries[i].address;
    let sent = tokens_with_sign(flows, i, true);
    let received = tokens_with_sign(flows, i, false);
    proof {
        lemma_entry_list_complete(ts, *flows, i as int, sent@, true);
        lemma_entry_list_complete(ts, *flows, i as int, received@, false);
        lemma_two_iff_len(ts, u, sent@, true);
        lemma_two_iff_len(ts, u, received@, false);
        lemma_one_iff_len(ts, u, sent@, true);
        lemma_one_iff_len(ts, u, received@, false);
    }
    if sent.len() >= 2 && received.len() == 1 {
        let lp_token = received[0].clone();
        let e = AmlEvent::LiquidityAdd { user: address.clone(), lp_token, sent_tokens: sent };
        Some(e)
    } else if sent.len() == 1 && received.len() >= 2 {
        let lp_token = sent[0].clone();
        let e = AmlEvent::LiquidityRemove { user: address.clone(), lp_token, received_tokens: received };
        Some(e)
    } else {
        None
    }
}

/// For each address (only `actor`, when one is given; never the zero address):
/// `LiquidityAdd` when it gave up two or more tokens and received exactly one,
/// the pool token; `LiquidityRemove` when it gave up exactly one token, the pool
/// token, and received two or more.
pub fn detect_liquidity_events(transfers: &[SimpleTransfer], actor: Option<&str>) -> (events: Vec<
    AmlEvent,
>)
    requires
        net_flows_fit(transfers@),
    ensures
        forall|p: int|
            0 <= p < events@.len() ==> valid_liquidity_event(
                transfers@,
                actor_view(actor),
                #[trigger] events@[p],
            ),
        forall|u: Seq<char>, adding: bool| #[trigger]
            is_liquidity_change(transfers@, actor_view(actor), u, adding) ==> lists_liquidity(
                events@,
                adding,
                u,
            ),
        forall|p: int, q: int|
            0 <= p < q < events@.len() ==> liquidity_user(events@[p]) != liquidity_user(events@[q]),
        is_liquidity_result(transfers@, actor_view(actor), events@),
{
    let ghost ts = transfers@;
    let ghost av = actor_view(actor);
    let flows = compute_net_flows(transfers);
    let zero = owned(ZERO_ADDRESS);
    let actor_name: Option<String> = match actor {
        Some(a) => Some(owned(a)),
        None => None,
    };
    let mut events: Vec<AmlEvent> = Vec::new();
    let ghost mut origin: Seq<int> = Seq::empty();
    let mut i: usize = 0;
    while i < flows.entries.len()
        invariant
            ts == transfers@,
            is_net_flow_map(ts, flows),
            zero@ == zero_address(),
            av == actor_view(actor),
            match actor_name {
                Some(n) => av == Some(n@),
                None => av is None,
            },
            i <= flows.len(),
            origin.len() == events@.len(),
            forall|p: int| 0 <= p < events@.len() ==> valid_liquidity_event(ts, av, #[trigger] events@[p]),
            forall|p: int|
                #![trigger origin[p]]
                0 <= p < events@.len() ==> 0 <= origin[p] < i && liquidity_of(events@[p]) is Some
                    && liquidity_user(events@[p]) == flows.addr(origin[p]),
            forall|p: int, q: int| 0 <= p < q < events@.len() ==> origin[p] < origin[q],
            forall|i1: int, adding: bool|
                #![trigger flows.addr(i1), is_liquidity_change(ts, av, flows.addr(i1), adding)]
                0 <= i1 < i && is_liquidity_change(ts, av, flows.addr(i1), adding)
                    ==> lists_liquidity(events@, adding, flows.addr(i1)),
        decreases flows.entries.len() - i,
    {
        let address = &flows.entries[i].address;
        let ghost u = flows.addr(i as int);
        let skip = match &actor_name {
            Some(n) => !same(n, address),
            None => false,
        };
        if skip || same(address, &zero) {
            i = i + 1;
            continue;
        }
        let ghost before = events@;
        match entry_liquidity_event(Ghost(ts), Ghost(av), &flows, i) {
            Some(e) => {
                events.push(e);
                proof {
                    origin = origin.push(i as int);
                }
            },
            None => {},
        }
        proof {
            if events@.len() > before.len() {
                let n = before.len() as int;
                assert(events@[n] == events@.last());
                assert(liquidity_of(events@[n]) is Some);
                assert(liquidity_user(events@[n]) == u);
                assert forall|p: int| 0 <= p < n implies events@[p] == before[p] by {}
            } else {
                assert(events@ == before);
            }
            assert forall|adding: bool| is_liquidity_change(ts, av, u, adding) implies lists_liquidity(
                events@,
                adding,
                u,
            ) by {
                let n = before.len() as int;
                assert(liquidity_of(events@[n]) == Some((adding, u)));
            }
            assert forall|i1: int, adding: bool|
                #![trigger flows.addr(i1), is_liquidity_change(ts, av, flows.addr(i1), adding)]
                0 <= i1 < i && is_liquidity_change(ts, av, flows.addr(i1), adding) implies lists_liquidity(
                events@,
                adding,
                flows.addr(i1),
            ) by {
                let w = choose|w: int|
                    0 <= w < before.len() && #[trigger] liquidity_of(before[w]) == Some(
                        (adding, flows.addr(i1)),
                    );
                assert(events@[w] == before[w]);
            }
        }
        i = i + 1;
    }
    proof {
        assert forall|u: Seq<char>, adding: bool| #[trigger]
            is_liquidity_change(ts, av, u, adding) implies lists_liquidity(events@, adding, u) by {
            let (t1, t2) = choose|t1: Seq<char>, t2: Seq<char>|
                t1 != t2 && #[trigger] has_sign(net_flow(ts, u, t1), adding) && #[trigger] has_sign(
                    net_flow(ts, u, t2),
                    adding,
                );
            crate::aml::flow_engine::lemma_nonzero_net_touches(ts, u, t1);
            assert(flows.has_key(u, t1));
            let (i1, j1) = choose|i1: int, j1: int|
                #![trigger flows.tok(i1, j1)]
                flows.valid_index(i1, j1) && flows.addr(i1) == u && flows.tok(i1, j1) == t1;
            assert(is_liquidity_change(ts, av, flows.addr(i1), adding));
        }
        assert forall|p: int, q: int|
            0 <= p < q < events@.len() implies liquidity_user(events@[p]) != liquidity_user(events@[q]) by {
            assert(origin[p] < origin[q]);
            assert(flows.addr(origin[p]) != flows.addr(origin[q]));
        }
    }
    events
}

/// A complete signed-token list has two or more entries exactly when two
/// different tokens have that sign.
proof fn lemma_two_iff_len(ts: Seq<SimpleTransfer>, u: Seq<char>, list: Seq<String>, negative: bool)
    requires
        lists_signed_tokens(ts, u, list, negative),
    ensures
        two_with_sign(ts, u, negative) <==> list.len() >= 2,
{
    if two_with_sign(ts, u, negative) {
        let (t1, t2) = choose|t1: Seq<char>, t2: Seq<char>|
            t1 != t2 && #[trigger] has_sign(net_flow(ts, u, t1), negative) && #[trigger] has_sign(
                net_flow(ts, u, t2),
                negative,
            );
        assert(seq_has(list, t1));
        assert(seq_has(list, t2));
        let p1 = choose|p: int| 0 <= p < list.len() && list[p]@ == t1;
        let p2 = choose|p: int| 0 <= p < list.len() && list[p]@ == t2;
        assert(p1 != p2);
    }
    if list.len() >= 2 {
        assert(has_sign(net_flow(ts, u, list[0]@), negative));
        assert(has_sign(net_flow(ts, u, list[1]@), negative));
        assert(list[0]@ != list[1]@);
    }
}

/// A complete signed-token list has exactly one entry exactly when a single
/// token has that sign.
proof fn lemma_one_iff_len(ts: Seq<SimpleTransfer>, u: Seq<char>, list: Seq<String>, negative: bool)
    requires
        lists_signed_tokens(ts, u, list, negative),
    ensures
        exactly_one_with_sign(ts, u, negative) <==> list.len() == 1,
        list.len() == 1 ==> only_with_sign(ts, u, list[0]@, negative),
{
    if list.len() == 1 {
        assert(has_sign(net_flow(ts, u, list[0]@), negative));
        assert forall|t: Seq<char>| #[trigger] has_sign(net_flow(ts, u, t), negative) implies t
            == list[0]@ by {
            assert(seq_has(list, t));
            let p = choose|p: int| 0 <= p < list.len() && list[p]@ == t;
        }
        assert(only_with_sign(ts, u, list[0]@, negative));
    }
    if exactly_one_with_sign(ts, u, negative) {
        let lp = choose|lp: Seq<char>| #[trigger] only_with_sign(ts, u, lp, negative);
        assert(has_sign(net_flow(ts, u, lp), negative));
        assert(seq_has(list, lp));
        let p = choose|p: int| 0 <= p < list.len() && list[p]@ == lp;
        if list.len() >= 2 {
            let o = if p == 0 {
                1int
            } else {
                0
            };
            assert(has_sign(net_flow(ts, u, list[o]@), negative));
            assert(list[o]@ == lp);
            assert(list[o]@ != list[p]@);
        }
    }
}

/// What `detect_liquidity_events` guarantees of its result for `actor`: every
/// event is justified, every liquidity change is listed, no user twice.
pub open spec fn is_liquidity_result(ts: Seq<SimpleTransfer>, actor: Option<Seq<char>>, events: Seq<AmlEvent>) -> bool {
    &&& forall|p: int| 0 <= p < events.len() ==> valid_liquidity_event(ts, actor, #[trigger] events[p])
    &&& forall|u: Seq<char>, adding: bool| #[trigger]
        is_liquidity_change(ts, actor, u, adding) ==> lists_liquidity(events, adding, u)
    &&& forall|p: int, q: int|
        0 <= p < q < events.len() ==> liquidity_user(events[p]) != liquidity_user(events[q])
}

/// The pool token of a liquidity event.
pub open spec fn liquidity_lp_token(e: AmlEvent) -> Seq<char> {
    match e {
        AmlEvent::LiquidityAdd { lp_token, .. } => lp_token@,
        AmlEvent::LiquidityRemove { lp_token, .. } => lp_token@,
        _ => Seq::empty(),
    }
}

/// The other tokens of a liquidity event (sent when adding, received when removing).
pub open spec fn liquidity_tokens(e: AmlEvent) -> Seq<String> {
    match e {
        AmlEvent::LiquidityAdd { sent_tokens, .. } => sent_tokens@,
        AmlEvent::LiquidityRemove { received_tokens, .. } => received_tokens@,
        _ => Seq::empty(),
    }
}

/// Two liquidity events of the same kind and user, with the same pool token
/// and the same set of other tokens.
pub open spec fn same_liquidity_event(e: AmlEvent, f: AmlEvent) -> bool {
    &&& liquidity_of(e) is Some
    &&& liquidity_of(e) == liquidity_of(f)
    &&& liquidity_lp_token(e) == liquidity_lp_token(f)
    &&& forall|t: Seq<char>| #[trigger] seq_has(liquidity_tokens(e), t) == seq_has(liquidity_tokens(f), t)
}

proof fn lemma_valid_events_agree(ts: Seq<SimpleTransfer>, a1: Option<Seq<char>>, a2: Option<Seq<char>>, e: AmlEvent, f: AmlEvent)
    requires
        valid_liquidity_event(ts, a1, e),
        valid_liquidity_event(ts, a2, f),
        liquidity_of(e) == liquidity_of(f),
    ensures
        same_liquidity_event(e, f),
{
    let u = liquidity_user(e);
    let neg = liquidity_adding(e);
    assert(only_with_sign(ts, u, liquidity_lp_token(e), !neg));
    assert(only_with_sign(ts, u, liquidity_lp_token(f), !neg));
    assert(has_sign(net_flow(ts, u, liquidity_lp_token(f)), !neg));
    assert(lists_signed_tokens(ts, u, liquidity_tokens(e), neg));
    assert(lists_signed_tokens(ts, u, liquidity_tokens(f), neg));
    assert forall|t: Seq<char>| #[trigger] seq_has(liquidity_tokens(e), t) == seq_has(liquidity_tokens(f), t) by {
        if seq_has(liquidity_tokens(e), t) {
            let p = choose|p: int| 0 <= p < liquidity_tokens(e).len() && liquidity_tokens(e)[p]@ == t;
            assert(has_sign(net_flow(ts, u, liquidity_tokens(e)[p]@), neg));
        }
        if seq_has(liquidity_tokens(f), t) {
            let p = choose|p: int| 0 <= p < liquidity_tokens(f).len() && liquidity_tokens(f)[p]@ == t;
            assert(has_sign(net_flow(ts, u, liquidity_tokens(f)[p]@), neg));
        }
    }
}

/// Law (one actor's share): the liquidity events found for actor `a` are
/// exactly the events found for all actors whose user is `a`: each of them
/// has a matching event (same kind, user, pool token and set of other tokens)
/// among all, each event of all with user `a` has a match among them, and
/// there are as many (at most one).
pub proof fn lemma_actor_events_are_its_share(
    ts: Seq<SimpleTransfer>,
    a: Seq<char>,
    for_actor: Seq<AmlEvent>,
    for_all: Seq<AmlEvent>,
)
    requires
        is_liquidity_result(ts, Some(a), for_actor),
        is_liquidity_result(ts, None, for_all),
    ensures
        forall|p: int|
            0 <= p < for_actor.len() ==> liquidity_user(#[trigger] for_actor[p]) == a && exists|q: int|
                0 <= q < for_all.len() && same_liquidity_event(for_actor[p], #[trigger] for_all[q]),
        forall|q: int|
            0 <= q < for_all.len() && liquidity_user(#[trigger] for_all[q]) == a ==> exists|p: int|
                0 <= p < for_actor.len() && same_liquidity_event(#[trigger] for_actor[p], for_all[q]),
        for_actor.len() == (if exists|q: int| 0 <= q < for_all.len() && liquidity_user(#[trigger] for_all[q]) == a {
            1int
        } else {
            0int
        }),
{
    assert forall|p: int| 0 <= p < for_actor.len() implies liquidity_user(#[trigger] for_actor[p]) == a
        && exists|q: int| 0 <= q < for_all.len() && same_liquidity_event(for_actor[p], #[trigger] for_all[q]) by {
        let e = for_actor[p];
        assert(valid_liquidity_event(ts, Some(a), e));
        let k = liquidity_adding(e);
        assert(is_liquidity_change(ts, None, liquidity_user(e), k));
        assert(lists_liquidity(for_all, k, liquidity_user(e)));
        let q = choose|q: int| 0 <= q < for_all.len() && #[trigger] liquidity_of(for_all[q]) == Some((k, liquidity_user(e)));
        assert(valid_liquidity_event(ts, None, for_all[q]));
        lemma_valid_events_agree(ts, Some(a), None, e, for_all[q]);
    }
    assert forall|q: int| 0 <= q < for_all.len() && liquidity_user(#[trigger] for_all[q]) == a implies exists|p: int|
        0 <= p < for_actor.len() && same_liquidity_event(#[trigger] for_actor[p], for_all[q]) by {
        let f = for_all[q];
        assert(valid_liquidity_event(ts, None, f));
        let k = liquidity_adding(f);
        assert(is_liquidity_change(ts, Some(a), a, k));
        assert(lists_liquidity(for_actor, k, a));
        let p = choose|p: int| 0 <= p < for_actor.len() && #[trigger] liquidity_of(for_actor[p]) == Some((k, a));
        assert(valid_liquidity_event(ts, Some(a), for_actor[p]));
        lemma_valid_events_agree(ts, Some(a), None, for_actor[p], f);
    }
    if for_actor.len() >= 2 {
        assert(valid_liquidity_event(ts, Some(a), for_actor[0]));
        assert(valid_liquidity_event(ts, Some(a), for_actor[1]));
        assert(liquidity_user(for_actor[0]) != liquidity_user(for_actor[1]));
    }
    if exists|q: int| 0 <= q < for_all.len() && liquidity_user(#[trigger] for_all[q]) == a {
        let q = choose|q: int| 0 <= q < for_all.len() && liquidity_user(#[trigger] for_all[q]) == a;
        assert(liquidity_user(for_all[q]) == a);
    } else if for_actor.len() > 0 {
        assert(liquidity_user(for_actor[0]) == a);
        assert(exists|q: int| 0 <= q < for_all.len() && same_liquidity_event(for_actor[0], #[trigger] for_all[q]));
        let q = choose|q: int| 0 <= q < for_all.len() && same_liquidity_event(for_actor[0], #[trigger] for_all[q]);
        assert(liquidity_of(for_all[q]) == liquidity_of(for_actor[0]));
        assert(liquidity_user(for_all[q]) == a);
    }
}

} // verus!
