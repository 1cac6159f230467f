//! Exchange deposits: wallets that many transfers flow into are attributed to
//! an unknown exchange.
use vstd::prelude::*;

use crate::aml::heuristics::{receiver_strings, receivers_of};
use crate::aml::types::SimpleTransfer;
use crate::exchange::heuristics::inbound_count;
use crate::text::{keys_with_count_at_least, lemma_occurrences_views, owned, views};

verus! {

/// The name given to an exchange whose identity is not known.
pub const UNKNOWN_EXCHANGE: &'static str = "UnknownExchange";

/// The wallets of a deposit map, in order.
pub open spec fn deposit_wallets(m: Seq<(String, String)>) -> Seq<Seq<char>> {
    m.map_values(|e: (String, String)| e.0@)
}

/// Deposit wallet to exchange name: every wallet that receives at least five
/// of the transfers, attributed to `"UnknownExchange"`.
pub fn detect_exchange_deposits(transfers: &[SimpleTransfer]) -> (results: Vec<(String, String)>)
    ensures
        deposit_wallets(results@).no_duplicates(),
        forall|p: int| 0 <= p < results@.len() ==> (#[trigger] results@[p]).1@ == UNKNOWN_EXCHANGE@,
        forall|p: int|
            0 <= p < results@.len() ==> inbound_count(transfers@, (#[trigger] results@[p]).0@) >= 5,
        forall|w: Seq<char>| #[trigger] inbound_count(transfers@, w) >= 5 ==> deposit_wallets(
            results@,
        ).contains(w),
{
    let receivers = receivers_of(transfers);
    let wallets = keys_with_count_at_least(&receivers, 5);
    let mut results: Vec<(String, String)> = Vec::new();
    let mut i: usize = 0;
    while i < wallets.len()
        invariant
            i <= wallets@.len(),
            deposit_wallets(results@) == views(wallets@.take(i as int)),
            forall|p: int| 0 <= p < results@.len() ==> (#[trigger] results@[p]).1@ == UNKNOWN_EXCHANGE@,
        decreases wallets.len() - i,
    {
        let ghost r0 = results@;
        results.push((wallets[i].clone(), owned(UNKNOWN_EXCHANGE)));
        assert(deposit_wallets(results@) =~= deposit_wallets(r0).push(wallets@[i as int]@));
        assert(views(wallets@.take(i + 1)) =~= views(wallets@.take(i as int)).push(wallets@[i as int]@));
        assert forall|p: int| 0 <= p < results@.len() implies (#[trigger] results@[p]).1@
            == UNKNOWN_EXCHANGE@ by {
            if p < r0.len() {
                assert(results@[p] == r0[p]);
            }
        }
        i = i + 1;
    }
    proof {
        assert(wallets@.take(wallets@.len() as int) =~= wallets@);
        assert forall|w: Seq<char>| crate::text::occurrences(receivers@, w) == #[trigger] inbound_count(
            transfers@,
            w,
        ) by {
            lemma_occurrences_views(receivers@, receiver_strings(transfers@), w);
        }
        assert forall|p: int| 0 <= p < results@.len() implies inbound_count(
            transfers@,
            (#[trigger] results@[p]).0@,
        ) >= 5 by {
            assert(deposit_wallets(results@)[p] == views(wallets@)[p]);
            assert(crate::text::occurrences(receivers@, wallets@[p]@) >= 5);
        }
        assert forall|w: Seq<char>| #[trigger] inbound_count(transfers@, w) >= 5 implies deposit_wallets(
            results@,
        ).contains(w) by {
            assert(crate::text::occurrences(receivers@, w) >= 5);
        }
    }
    results
}

} // verus!
