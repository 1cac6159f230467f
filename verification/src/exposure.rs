//! The breadth-first walk that traces exposure out of a risky address: which
//! address to expand next, at what hop distance, with the score it carries.
//! `S` is the type of the scores, which the walk carries without reading.
use vstd::prelude::*;

use crate::text::{contains_string, owned, views};

verus! {

/// A queue entry that is passed over: beyond the hop limit, or already expanded.
pub open spec fn is_passed_over(hops: u8, address: Seq<char>, max_hops: u8, visited: Seq<Seq<char>>) -> bool {
    hops > max_hops || visited.contains(address)
}

/// The exposure walk: the queued addresses with their score and hop
/// distance, and the addresses already expanded.
pub struct ExposureWalk<S> {
    max_hops: u8,
    queue: Vec<(String, S, u8)>,
    head: usize,
    visited: Vec<String>,
}

impl<S: Copy> ExposureWalk<S> {
    /// The largest hop distance that is expanded.
    pub closed spec fn max_hops(&self) -> u8 {
        self.max_hops
    }

    /// The queued entries, next first.
    pub closed spec fn pending(&self) -> Seq<(Seq<char>, S, u8)> {
        self.queue@.skip(self.head as int).map_values(|e: (String, S, u8)| (e.0@, e.1, e.2))
    }

    /// The addresses expanded so far, in order.
    pub closed spec fn visited(&self) -> Seq<Seq<char>> {
        views(self.visited@)
    }

    /// The walk's own invariant: no address expanded twice.
    pub closed spec fn wf(&self) -> bool {
        &&& self.head <= self.queue@.len()
        &&& views(self.visited@).no_duplicates()
    }

    /// A walk from `seed` with score `seed_score` at hop 0, expanding addresses
    /// up to `max_hops` hops away.
    pub fn new(seed: &str, seed_score: S, max_hops: u8) -> (w: Self)
        ensures
            w.wf(),
            w.max_hops() == max_hops,
            w.pending() == seq![(seed@, seed_score, 0u8)],
            w.visited().len() == 0,
    {
        let w = ExposureWalk {
            max_hops,
            queue: vec![(owned(seed), seed_score, 0u8)],
            head: 0,
            visited: Vec::new(),
        };
        assert(w.pending() =~= seq![(seed@, seed_score, 0u8)]);
        assert(views(w.visited@) =~= Seq::<Seq<char>>::empty());
        w
    }

    /// The next address to expand: the first queued entry within the hop
    /// limit whose address was not expanded yet; entries before it are dropped
    /// and the address counts as expanded. `None` once no such entry is queued.
    pub fn next_address(&mut self) -> (r: Option<(String, S, u8)>)
        requires
            old(self).wf(),
        ensures
            final(self).wf(),
            final(self).max_hops() == old(self).max_hops(),
            match r {
                Some((a, s, h)) => exists|j: int|
                    0 <= j < old(self).pending().len() && #[trigger] old(self).pending()[j] == (a@, s, h)
                        && !is_passed_over(h, a@, old(self).max_hops(), old(self).visited()) && (forall|
                        i: int,
                    |
                        0 <= i < j ==> is_passed_over(
                            (#[trigger] old(self).pending()[i]).2,
                            old(self).pending()[i].0,
                            old(self).max_hops(),
                            old(self).visited(),
                        )) && final(self).pending() == old(self).pending().skip(j + 1)
                        && final(self).visited() == old(self).visited().push(a@),
                None => (forall|i: int|
                    0 <= i < old(self).pending().len() ==> is_passed_over(
                        (#[trigger] old(self).pending()[i]).2,
                        old(self).pending()[i].0,
                        old(self).max_hops(),
                        old(self).visited(),
                    )) && final(self).pending().len() == 0 && final(self).visited()
                    == old(self).visited(),
            },
    {
        let ghost p0 = self.pending();
        let ghost h0 = self.head;
        let ghost q0 = self.queue@;
        let ghost v0 = self.visited@;
        let ghost m0 = self.max_hops;
        while self.head < self.queue.len()
            invariant
                h0 <= self.head <= self.queue@.len(),
                self.queue@ == q0,
                self.visited@ == v0,
                self.max_hops == m0,
                m0 == old(self).max_hops,
                v0 == old(self).visited@,
                p0 == old(self).pending(),
                views(v0).no_duplicates(),
                p0 == q0.skip(h0 as int).map_values(|e: (String, S, u8)| (e.0@, e.1, e.2)),
                forall|i: int|
                    0 <= i < self.head - h0 ==> is_passed_over(
                        (#[trigger] p0[i]).2,
                        p0[i].0,
                        m0,
                        views(v0),
                    ),
            decreases self.queue.len() - self.head,
        {
            let h = self.head;
            let a = self.queue[h].0.clone();
            let s = self.queue[h].1;
            let hops = self.queue[h].2;
            assert(p0[h - h0] == (a@, s, hops));
            self.head = h + 1;
            if hops <= self.max_hops && !contains_string(&self.visited, &a) {
                self.visited.push(a.clone());
                proof {
                    assert(views(self.visited@) =~= views(v0).push(a@));
                    crate::text::lemma_push_contains(views(v0), a@);
                    assert(self.pending() =~= p0.skip(h - h0 + 1));
                    assert(views(self.visited@).no_duplicates()) by {
                        assert forall|x: int, y: int|
                            0 <= x < views(self.visited@).len() && 0 <= y < views(self.visited@).len()
                                && x != y implies views(self.visited@)[x] != views(self.visited@)[y] by {
                            if x == v0.len() {
                                assert(views(v0).contains(views(v0)[y]));
                            } else if y == v0.len() {
                                assert(views(v0).contains(views(v0)[x]));
                            }
                        }
                    }
                }
                return Some((a, s, hops));
            }
        }
        assert(self.pending() =~= Seq::<(Seq<char>, S, u8)>::empty());
        None
    }

    /// Queues the addresses reached from an address expanded at `hops`, in
    /// order, each at `hops + 1` with the score given for it. When there are
    /// such addresses, `hops + 1` must fit in a `u8`.
    pub fn enqueue_next(&mut self, hops: u8, next: Vec<(String, S)>)
        requires
            old(self).wf(),
            hops <= old(self).max_hops(),
            next@.len() > 0 ==> hops < 255,
        ensures
            final(self).wf(),
            final(self).max_hops() == old(self).max_hops(),
            final(self).visited() == old(self).visited(),
            final(self).pending() == old(self).pending() + next@.map_values(
                |e: (String, S)| (e.0@, e.1, (hops + 1) as u8),
            ),
    {
        let ghost p0 = self.pending();
        let ghost nh: u8 = (hops + 1) as u8;
        let mut k: usize = 0;
        while k < next.len()
            invariant
                self.wf(),
                self.max_hops() == old(self).max_hops(),
                self.visited() == old(self).visited(),
                p0 == old(self).pending(),
                nh == (hops + 1) as u8,
                next@.len() > 0 ==> hops < 255,
                k <= next@.len(),
                self.pending() == p0 + next@.take(k as int).map_values(
                    |e: (String, S)| (e.0@, e.1, nh),
                ),
            decreases next.len() - k,
        {
            let ghost q1 = self.queue@;
            let ghost pend = self.pending();
            let a = next[k].0.clone();
            let s = next[k].1;
            let h: u8 = hops + 1;
            self.queue.push((a, s, h));
            proof {
                assert(pend =~= q1.skip(self.head as int).map_values(|e: (String, S, u8)| (e.0@, e.1, e.2)));
                assert(self.pending() =~= pend.push((next@[k as int].0@, s, nh)));
                assert(next@.take(k + 1).map_values(|e: (String, S)| (e.0@, e.1, nh)) =~= next@.take(
                    k as int,
                ).map_values(|e: (String, S)| (e.0@, e.1, nh)).push((next@[k as int].0@, s, nh)));
            }
            k = k + 1;
        }
        assert(next@.take(next@.len() as int) =~= next@);
    }
}

} // verus!
