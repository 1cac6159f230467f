//! Sweep wallets: wallets that many transfers flow into.
use vstd::prelude::*;

use crate::aml::heuristics::{receiver_strings, receivers_of};
use crate::aml::types::SimpleTransfer;
use crate::exchange::heuristics::inbound_count;
use crate::text::{keys_with_count_at_least, lemma_occurrences_views, views};

verus! {

/// The wallets that receive at least ten of the transfers, once each.
pub fn detect_sweep_wallets(transfers: &[SimpleTransfer]) -> (wallets: Vec<String>)
    ensures
        views(wallets@).no_duplicates(),
        forall|p: int| 0 <= p < wallets@.len() ==> inbound_count(transfers@, #[trigger] wallets@[p]@) >= 10,
        forall|w: Seq<char>| #[trigger] inbound_count(transfers@, w) >= 10 ==> views(wallets@).contains(w),
{
    let receivers = receivers_of(transfers);
    let wallets = keys_with_count_at_least(&receivers, 10);
    proof {
        assert forall|w: Seq<char>| crate::text::occurrences(receivers@, w) == #[trigger] inbound_count(
            transfers@,
            w,
        ) by {
            lemma_occurrences_views(receivers@, receiver_strings(transfers@), w);
        }
        assert forall|p: int| 0 <= p < wallets@.len() implies inbound_count(
            transfers@,
            #[trigger] wallets@[p]@,
        ) >= 10 by {
            assert(crate::text::occurrences(receivers@, wallets@[p]@) >= 10);
        }
        assert forall|w: Seq<char>| #[trigger] inbound_count(transfers@, w) >= 10 implies views(
            wallets@,
        ).contains(w) by {
            assert(crate::text::occurrences(receivers@, w) >= 10);
        }
    }
    wallets
}

} // verus!
