//! Fan-in and fan-out tests for exchange wallets.
use vstd::prelude::*;

use crate::aml::heuristics::{receiver_strings, receivers_of, sender_strings, senders_of};
use crate::aml::types::SimpleTransfer;
use crate::text::{lemma_occurrences_views, occurrences, tally, tally_has, Tally};

verus! {

/// The number of transfers of `ts` received by `w`.
pub open spec fn inbound_count(ts: Seq<SimpleTransfer>, w: Seq<char>) -> nat {
    occurrences(receiver_strings(ts), w)
}

/// The number of transfers of `ts` sent by `w`.
pub open spec fn outbound_count(ts: Seq<SimpleTransfer>, w: Seq<char>) -> nat {
    occurrences(sender_strings(ts), w)
}

/// Some string occurs at least `n` times in `xs`.
pub open spec fn some_occurs_at_least(xs: Seq<String>, n: nat) -> bool {
    exists|x: Seq<char>| #[trigger] occurrences(xs, x) >= n
}

fn any_count_at_least(xs: &Vec<String>, n: usize) -> (r: bool)
    ensures
        r == some_occurs_at_least(xs@, n as nat),
{
    let t: Vec<Tally> = tally(xs);
    let mut i: usize = 0;
    while i < t.len()
        invariant
            i <= t@.len(),
            crate::text::is_tally_of(t@, xs@),
            forall|q: int| 0 <= q < i ==> #[trigger] t@[q].count < n,
        decreases t.len() - i,
    {
        if t[i].count >= n {
            assert(occurrences(xs@, t@[i as int].key@) >= n);
            return true;
        }
        i = i + 1;
    }
    proof {
        if some_occurs_at_least(xs@, n as nat) {
            let x = choose|x: Seq<char>| #[trigger] occurrences(xs@, x) >= n;
            if n == 0 {
                assert(occurrences(xs@, x) >= n);
            }
            if occurrences(xs@, x) > 0 {
                assert(tally_has(t@, x));
                let q = choose|q: int| 0 <= q < t@.len() && #[trigger] t@[q].key@ == x;
                assert(t@[q].count == occurrences(xs@, t@[q].key@));
            } else {
                assert(n == 0);
            }
        }
    }
    if n == 0 {
        assert(occurrences(xs@, Seq::empty()) >= 0);
        return true;
    }
    false
}

/// Many wallets into one: some wallet receives at least five of the transfers.
pub fn is_probable_sweeper(transfers: &[SimpleTransfer]) -> (r: bool)
    ensures
        r == exists|w: Seq<char>| #[trigger] inbound_count(transfers@, w) >= 5,
{
    let receivers = receivers_of(transfers);
    let r = any_count_at_least(&receivers, 5);
    proof {
        assert forall|w: Seq<char>| occurrences(receivers@, w) == #[trigger] inbound_count(transfers@, w) by {
            lemma_occurrences_views(receivers@, receiver_strings(transfers@), w);
        }
        if r {
            let x = choose|x: Seq<char>| #[trigger] occurrences(receivers@, x) >= 5;
            assert(inbound_count(transfers@, x) >= 5);
        }
    }
    r
}

/// One wallet to many users: some wallet sends at least five of the transfers.
pub fn is_probable_withdrawal_wallet(transfers: &[SimpleTransfer]) -> (r: bool)
    ensures
        r == exists|w: Seq<char>| #[trigger] outbound_count(transfers@, w) >= 5,
{
    let senders = senders_of(transfers);
    let r = any_count_at_least(&senders, 5);
    proof {
        assert forall|w: Seq<char>| occurrences(senders@, w) == #[trigger] outbound_count(transfers@, w) by {
            lemma_occurrences_views(senders@, sender_strings(transfers@), w);
        }
        if r {
            let x = choose|x: Seq<char>| #[trigger] occurrences(senders@, x) >= 5;
            assert(outbound_count(transfers@, x) >= 5);
        }
    }
    r
}

} // verus!
