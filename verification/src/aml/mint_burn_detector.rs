//! Mints and burns: transfers from or to the zero address.
use vstd::prelude::*;

use crate::aml::types::{zero_address, AmlEvent, SimpleTransfer, ZERO_ADDRESS};
use crate::text::{owned, same};

verus! {

/// Kind (`true` for a mint), user and token of a mint or burn event.
pub open spec fn mint_burn_of(e: AmlEvent) -> (bool, Seq<char>, Seq<char>) {
    match e {
        AmlEvent::Mint { user, token } => (true, user@, token@),
        AmlEvent::Burn { user, token } => (false, user@, token@),
        _ => (false, Seq::empty(), Seq::empty()),
    }
}

/// The events of one transfer: a mint to the receiver when it comes from the
/// zero address, then a burn by the sender when it goes to the zero address.
pub open spec fn transfer_mint_burn(t: SimpleTransfer) -> Seq<(bool, Seq<char>, Seq<char>)> {
    (if t.from@ == zero_address() {
        seq![(true, t.to@, t.token@)]
    } else {
        Seq::empty()
    }) + (if t.to@ == zero_address() {
        seq![(false, t.from@, t.token@)]
    } else {
        Seq::empty()
    })
}

/// The mint and burn events of `ts`, transfer by transfer.
pub open spec fn mint_burn_rows(ts: Seq<SimpleTransfer>) -> Seq<(bool, Seq<char>, Seq<char>)>
    decreases ts.len(),
{
    if ts.len() == 0 {
        Seq::empty()
    } else {
        mint_burn_rows(ts.drop_last()) + transfer_mint_burn(ts.last())
    }
}

/// The rows of two runs of transfers, one after the other, are the rows of
/// the first run followed by those of the second: what a transfer gives does
/// not depend on the transfers before it.
pub proof fn lemma_mint_burn_rows_split(a: Seq<SimpleTransfer>, b: Seq<SimpleTransfer>)
    ensures
        mint_burn_rows(a + b) == mint_burn_rows(a) + mint_burn_rows(b),
    decreases b.len(),
{
    if b.len() == 0 {
        assert(a + b =~= a);
        assert(mint_burn_rows(a) + mint_burn_rows(b) =~= mint_burn_rows(a));
    } else {
        lemma_mint_burn_rows_split(a, b.drop_last());
        assert((a + b).drop_last() =~= a + b.drop_last());
        assert((a + b).last() == b.last());
        assert(mint_burn_rows(a + b) =~= mint_burn_rows(a) + mint_burn_rows(b));
    }
}

/// There are as many mints as transfers from the zero address, and as many
/// burns as transfers to it; each mint goes to the receiver of a transfer from
/// the zero address and each burn to the sender of a transfer to it, with the
/// transfer's token.
pub proof fn lemma_mint_burn_counts(ts: Seq<SimpleTransfer>)
    ensures
        mint_burn_rows(ts).filter(|r: (bool, Seq<char>, Seq<char>)| r.0).len() == ts.filter(
            |t: SimpleTransfer| t.from@ == zero_address(),
        ).len(),
        mint_burn_rows(ts).filter(|r: (bool, Seq<char>, Seq<char>)| !r.0).len() == ts.filter(
            |t: SimpleTransfer| t.to@ == zero_address(),
        ).len(),
        forall|p: int|
            0 <= p < mint_burn_rows(ts).len() ==> #[trigger] row_from_some_transfer(
                mint_burn_rows(ts)[p],
                ts,
            ),
    decreases ts.len(),
{
    let fm = |r: (bool, Seq<char>, Seq<char>)| r.0;
    let fb = |r: (bool, Seq<char>, Seq<char>)| !r.0;
    let tm = |t: SimpleTransfer| t.from@ == zero_address();
    let tb = |t: SimpleTransfer| t.to@ == zero_address();
    reveal_with_fuel(Seq::filter, 1);
    if ts.len() > 0 {
        let prev = ts.drop_last();
        let t = ts.last();
        lemma_mint_burn_counts(prev);
        let rp = mint_burn_rows(prev);
        let rt = transfer_mint_burn(t);
        assert(mint_burn_rows(ts) == rp + rt);
        Seq::filter_distributes_over_add(rp, rt, fm);
        Seq::filter_distributes_over_add(rp, rt, fb);
        reveal_with_fuel(Seq::filter, 3);
        if t.from@ == zero_address() && t.to@ == zero_address() {
            assert(rt =~= seq![(true, t.to@, t.token@), (false, t.from@, t.token@)]);
            assert(rt.filter(fm) =~= seq![(true, t.to@, t.token@)]);
            assert(rt.filter(fb) =~= seq![(false, t.from@, t.token@)]);
        } else if t.from@ == zero_address() {
            assert(rt =~= seq![(true, t.to@, t.token@)]);
            assert(rt.filter(fm) =~= rt);
            assert(rt.filter(fb) =~= Seq::empty());
        } else if t.to@ == zero_address() {
            assert(rt =~= seq![(false, t.from@, t.token@)]);
            assert(rt.filter(fm) =~= Seq::empty());
            assert(rt.filter(fb) =~= rt);
        } else {
            assert(rt =~= Seq::empty());
            assert(rt.filter(fm) =~= Seq::empty());
            assert(rt.filter(fb) =~= Seq::empty());
        }
        assert forall|p: int| 0 <= p < mint_burn_rows(ts).len() implies #[trigger] row_from_some_transfer(
            mint_burn_rows(ts)[p],
            ts,
        ) by {
            if p < rp.len() {
                assert(row_from_some_transfer(rp[p], prev));
                let k = choose|k: int| 0 <= k < prev.len() && #[trigger] row_of_transfer(rp[p], prev[k]);
                assert(ts[k] == prev[k]);
                assert(row_of_transfer(mint_burn_rows(ts)[p], ts[k]));
            } else {
                assert(mint_burn_rows(ts)[p] == rt[p - rp.len()]);
                assert(row_of_transfer(mint_burn_rows(ts)[p], ts[ts.len() - 1]));
            }
        }
    } else {
        assert(mint_burn_rows(ts) =~= Seq::empty());
        assert(ts.filter(tm) =~= Seq::empty());
        assert(ts.filter(tb) =~= Seq::empty());
    }
}

/// `r` is the mint or burn of some transfer of `ts`.
pub open spec fn row_from_some_transfer(r: (bool, Seq<char>, Seq<char>), ts: Seq<SimpleTransfer>) -> bool {
    exists|k: int| 0 <= k < ts.len() && #[trigger] row_of_transfer(r, ts[k])
}

/// `r` is a mint to the receiver of `t` sent from the zero address, or a burn
/// by the sender of `t` sent to the zero address, in `t`'s token.
pub open spec fn row_of_transfer(r: (bool, Seq<char>, Seq<char>), t: SimpleTransfer) -> bool {
    ||| r == (true, t.to@, t.token@) && t.from@ == zero_address()
    ||| r == (false, t.from@, t.token@) && t.to@ == zero_address()
}

/// A `Mint` for each transfer from the zero address and a `Burn` for each
/// transfer to it, in transfer order.
pub fn detect_mints_and_burns(transfers: &[SimpleTransfer]) -> (events: Vec<AmlEvent>)
    ensures
        forall|p: int|
            0 <= p < events@.len() ==> (#[trigger] events@[p] is Mint || events@[p] is Burn),
        events@.map_values(|e: AmlEvent| mint_burn_of(e)) == mint_burn_rows(transfers@),
{
    let zero = owned(ZERO_ADDRESS);
    let mut events: Vec<AmlEvent> = Vec::new();
    let mut k: usize = 0;
    while k < transfers.len()
        invariant
            k <= transfers@.len(),
            zero@ == zero_address(),
            forall|p: int|
                0 <= p < events@.len() ==> (#[trigger] events@[p] is Mint || events@[p] is Burn),
            events@.map_values(|e: AmlEvent| mint_burn_of(e)) == mint_burn_rows(
                transfers@.take(k as int),
            ),
        decreases transfers.len() - k,
    {
        let t = &transfers[k];
        let ghost base = events@.map_values(|e: AmlEvent| mint_burn_of(e));
        let ghost before = events@;
        if same(&t.from, &zero) {
            events.push(AmlEvent::Mint { user: t.to.clone(), token: t.token.clone() });
        }
        let ghost mid = events@;
        if same(&t.to, &zero) {
            events.push(AmlEvent::Burn { user: t.from.clone(), token: t.token.clone() });
        }
        proof {
            let p1 = transfers@.take(k + 1);
            assert(p1.drop_last() =~= transfers@.take(k as int));
            assert(p1.last() == *t);
            assert(events@.map_values(|e: AmlEvent| mint_burn_of(e)) =~= base
                + transfer_mint_burn(*t));
            assert forall|p: int|
                0 <= p < events@.len() implies (#[trigger] events@[p] is Mint || events@[p] is Burn) by {
                if p < before.len() {
                    assert(events@[p] == before[p]);
                } else if p < mid.len() {
                    assert(events@[p] == mid[p]);
                }
            }
        }
        k = k + 1;
    }
    assert(transfers@.take(transfers@.len() as int) =~= transfers@);
    events
}

} // verus!
