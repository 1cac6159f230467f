//! Simple laundering patterns over a set of transfers.
use vstd::prelude::*;

use crate::aml::types::SimpleTransfer;
use crate::text::{count_distinct, distinct_count, views};

verus! {

/// The receivers of `ts`, in order.
pub open spec fn receiver_strings(ts: Seq<SimpleTransfer>) -> Seq<String> {
    ts.map_values(|t: SimpleTransfer| t.to)
}

/// The senders of `ts`, in order.
pub open spec fn sender_strings(ts: Seq<SimpleTransfer>) -> Seq<String> {
    ts.map_values(|t: SimpleTransfer| t.from)
}

/// The number of different receivers in `ts`.
pub open spec fn distinct_receivers(ts: Seq<SimpleTransfer>) -> nat {
    distinct_count(receiver_strings(ts))
}

/// The receivers of the transfers, as owned strings.
pub fn receivers_of(transfers: &[SimpleTransfer]) -> (r: Vec<String>)
    ensures
        views(r@) == views(receiver_strings(transfers@)),
{
    let mut r: Vec<String> = Vec::new();
    let mut k: usize = 0;
    while k < transfers.len()
        invariant
            k <= transfers@.len(),
            views(r@) == views(receiver_strings(transfers@.take(k as int))),
        decreases transfers.len() - k,
    {
        let ghost before = r@;
        let c = transfers[k].to.clone();
        r.push(c);
        assert(receiver_strings(transfers@.take(k + 1)) =~= receiver_strings(transfers@.take(k as int)).push(
            transfers@[k as int].to,
        ));
        assert(views(r@) =~= views(before).push(c@));
        assert(views(receiver_strings(transfers@.take(k + 1))) =~= views(
            receiver_strings(transfers@.take(k as int)),
        ).push(transfers@[k as int].to@));
        k = k + 1;
    }
    assert(transfers@.take(transfers@.len() as int) =~= transfers@);
    r
}

/// The senders of the transfers, as owned strings.
pub fn senders_of(transfers: &[SimpleTransfer]) -> (r: Vec<String>)
    ensures
        views(r@) == views(sender_strings(transfers@)),
{
    let mut r: Vec<String> = Vec::new();
    let mut k: usize = 0;
    while k < transfers.len()
        invariant
            k <= transfers@.len(),
            views(r@) == views(sender_strings(transfers@.take(k as int))),
        decreases transfers.len() - k,
    {
        let ghost before = r@;
        let c = transfers[k].from.clone();
        r.push(c);
        assert(sender_strings(transfers@.take(k + 1)) =~= sender_strings(transfers@.take(k as int)).push(
            transfers@[k as int].from,
        ));
        assert(views(r@) =~= views(before).push(c@));
        assert(views(sender_strings(transfers@.take(k + 1))) =~= views(
            sender_strings(transfers@.take(k as int)),
        ).push(transfers@[k as int].from@));
        k = k + 1;
    }
    assert(transfers@.take(transfers@.len() as int) =~= transfers@);
    r
}

fn count_receivers(transfers: &[SimpleTransfer]) -> (n: usize)
    ensures
        n == distinct_receivers(transfers@),
{
    let r = receivers_of(transfers);
    let n = count_distinct(r.as_slice());
    assert(views(r@).to_set() == views(receiver_strings(transfers@)).to_set());
    n
}

/// A peel chain: at least three transfers reaching at least three different receivers.
pub fn is_peel_chain(transfers: &[SimpleTransfer]) -> (r: bool)
    ensures
        r == (transfers@.len() >= 3 && distinct_receivers(transfers@) >= 3),
{
    if transfers.len() < 3 {
        return false;
    }
    count_receivers(transfers) >= 3
}

/// Smurfing: at least five transfers, each of less than 1 000 000 units.
pub fn is_smurfing_pattern(transfers: &[SimpleTransfer]) -> (r: bool)
    ensures
        r == (transfers@.len() >= 5 && forall|k: int|
            0 <= k < transfers@.len() ==> #[trigger] transfers@[k].amount < 1_000_000u128),
{
    if transfers.len() < 5 {
        return false;
    }
    let mut k: usize = 0;
    while k < transfers.len()
        invariant
            k <= transfers@.len(),
            forall|q: int| 0 <= q < k ==> #[trigger] transfers@[q].amount < 1_000_000u128,
        decreases transfers.len() - k,
    {
        if transfers[k].amount >= 1_000_000u128 {
            return false;
        }
        k = k + 1;
    }
    true
}

/// High fan-out: transfers reach at least ten different receivers.
pub fn has_high_fanout(transfers: &[SimpleTransfer]) -> (r: bool)
    ensures
        r == (distinct_receivers(transfers@) >= 10),
{
    count_receivers(transfers) >= 10
}

} // verus!
