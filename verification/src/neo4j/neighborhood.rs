//! The breadth-first walk that gathers the edges around a wallet, one
//! address at a time: the walk says which address to load next, and takes in
//! the edges loaded for it.
use vstd::prelude::*;

use crate::neo4j::flow_graph::FlowEdge;
use crate::text::{contains_string, owned, same, views};

verus! {

/// The ids of a sequence of edges.
pub open spec fn edge_ids(es: Seq<FlowEdge>) -> Seq<Seq<char>> {
    es.map_values(|e: FlowEdge| e.id@)
}

/// The edges after taking in `rows`: each row whose id is not there yet is
/// appended, in order.
pub open spec fn absorb_edges(es: Seq<FlowEdge>, rows: Seq<FlowEdge>) -> Seq<FlowEdge>
    decreases rows.len(),
{
    if rows.len() == 0 {
        es
    } else {
        let prev = absorb_edges(es, rows.drop_last());
        if edge_ids(prev).contains(rows.last().id@) {
            prev
        } else {
            prev.push(rows.last())
        }
    }
}

/// The addresses that a new edge puts in the queue, at the next depth: its
/// ends other than the address being expanded, sender first, when the next
/// depth is still inside the walk.
pub open spec fn neighbours_of(e: FlowEdge, current: Seq<char>, next_depth: u8, enqueue: bool) -> Seq<
    (Seq<char>, u8),
> {
    if !enqueue {
        Seq::empty()
    } else {
        (if e.from@ != current {
            seq![(e.from@, next_depth)]
        } else {
            Seq::empty()
        }) + (if e.to@ != current {
            seq![(e.to@, next_depth)]
        } else {
            Seq::empty()
        })
    }
}

/// The queue entries that taking in `rows` adds, in order.
pub open spec fn absorb_queue(
    es: Seq<FlowEdge>,
    rows: Seq<FlowEdge>,
    current: Seq<char>,
    next_depth: u8,
    enqueue: bool,
) -> Seq<(Seq<char>, u8)>
    decreases rows.len(),
{
    if rows.len() == 0 {
        Seq::empty()
    } else {
        let prev = absorb_edges(es, rows.drop_last());
        absorb_queue(es, rows.drop_last(), current, next_depth, enqueue) + (if edge_ids(
            prev,
        ).contains(rows.last().id@) {
            Seq::empty()
        } else {
            neighbours_of(rows.last(), current, next_depth, enqueue)
        })
    }
}

/// A queue entry that is passed over: too deep, or already visited.
pub open spec fn is_skipped(entry: (Seq<char>, u8), max_depth: u8, visited: Seq<Seq<char>>) -> bool {
    entry.1 >= max_depth || visited.contains(entry.0)
}

/// The walk around a wallet: the addresses still queued with their depth, the
/// addresses already loaded, and the edges gathered so far.
pub struct NeighborhoodWalk {
    max_depth: u8,
    queue: Vec<(String, u8)>,
    head: usize,
    visited: Vec<String>,
    edges: Vec<FlowEdge>,
}

impl NeighborhoodWalk {
    /// The depth the walk stays under.
    pub closed spec fn max_depth(&self) -> u8 {
        self.max_depth
    }

    /// The queued addresses, next first, with their depth.
    pub closed spec fn pending(&self) -> Seq<(Seq<char>, u8)> {
        self.queue@.skip(self.head as int).map_values(|e: (String, u8)| (e.0@, e.1))
    }

    /// The addresses loaded so far, in order.
    pub closed spec fn visited(&self) -> Seq<Seq<char>> {
        views(self.visited@)
    }

    /// The edges gathered so far, in order.
    pub closed spec fn edges(&self) -> Seq<FlowEdge> {
        self.edges@
    }

    /// The walk's own invariant: no address loaded twice, no edge id twice.
    pub closed spec fn wf(&self) -> bool {
        &&& self.head <= self.queue@.len()
        &&& views(self.visited@).no_duplicates()
        &&& edge_ids(self.edges@).no_duplicates()
    }

    /// A walk from `address` at depth 0 that stays under `max_depth` hops.
    pub fn new(address: &str, max_depth: u8) -> (w: Self)
        ensures
            w.wf(),
            w.max_depth() == max_depth,
            w.pending() == seq![(address@, 0u8)],
            w.visited().len() == 0,
            w.edges().len() == 0,
    {
        let w = NeighborhoodWalk {
            max_depth,
            queue: vec![(owned(address), 0u8)],
            head: 0,
            visited: Vec::new(),
            edges: Vec::new(),
        };
        assert(w.pending() =~= seq![(address@, 0u8)]);
        assert(views(w.visited@) =~= Seq::<Seq<char>>::empty());
        w
    }

    /// The next address to load: the first queued entry that is under the
    /// depth limit and not loaded yet; the entries before it are dropped, and
    /// the address counts as loaded. `None` once the queue holds no such entry.
    pub fn next_address(&mut self) -> (r: Option<(String, u8)>)
        requires
            old(self).wf(),
        ensures
            final(self).wf(),
            final(self).max_depth() == old(self).max_depth(),
            final(self).edges() == old(self).edges(),
            match r {
                Some((a, d)) => exists|j: int|
                    0 <= j < old(self).pending().len() && #[trigger] old(self).pending()[j] == (a@, d)
                        && !is_skipped((a@, d), old(self).max_depth(), old(self).visited()) && (forall|
                        i: int,
                    |
                        0 <= i < j ==> is_skipped(
                            #[trigger] old(self).pending()[i],
                            old(self).max_depth(),
                            old(self).visited(),
                        )) && final(self).pending() == old(self).pending().skip(j + 1)
                        && final(self).visited() == old(self).visited().push(a@),
                None => (forall|i: int|
                    0 <= i < old(self).pending().len() ==> is_skipped(
                        #[trigger] old(self).pending()[i],
                        old(self).max_depth(),
                        old(self).visited(),
                    )) && final(self).pending().len() == 0 && final(self).visited()
                    == old(self).visited(),
            },
    {
        let ghost p0 = self.pending();
        let ghost h0 = self.head;
        let ghost q0 = self.queue@;
        let ghost v0 = self.visited@;
        let ghost e0 = self.edges@;
        let ghost m0 = self.max_depth;
        assert(p0.len() == q0.len() - h0);
        while self.head < self.queue.len()
            invariant
                h0 <= self.head <= self.queue@.len(),
                self.queue@ == q0,
                self.visited@ == v0,
                self.edges@ == e0,
                self.max_depth == m0,
                m0 == old(self).max_depth,
                e0 == old(self).edges@,
                v0 == old(self).visited@,
                p0 == old(self).pending(),
                views(v0).no_duplicates(),
                edge_ids(e0).no_duplicates(),
                p0 == q0.skip(h0 as int).map_values(|e: (String, u8)| (e.0@, e.1)),
                forall|i: int| 0 <= i < self.head - h0 ==> is_skipped(#[trigger] p0[i], m0, views(v0)),
            decreases self.queue.len() - self.head,
        {
            let h = self.head;
            let a = self.queue[h].0.clone();
            let d = self.queue[h].1;
            assert(p0[h - h0] == (a@, d));
            self.head = h + 1;
            if d < self.max_depth && !contains_string(&self.visited, &a) {
                self.visited.push(a.clone());
                proof {
                    assert(views(self.visited@) =~= views(v0).push(a@));
                    crate::text::lemma_push_contains(views(v0), a@);
                    assert(self.pending() =~= p0.skip(h - h0 + 1));
                    assert(views(self.visited@).no_duplicates()) by {
                        assert forall|x: int, y: int|
                            0 <= x < views(self.visited@).len() && 0 <= y < views(self.visited@).len()
                                && x != y implies views(self.visited@)[x] != views(self.visited@)[y] by {
                            if x == v0.len() {
                                assert(views(v0).contains(views(v0)[y]));
                            } else if y == v0.len() {
                                assert(views(v0).contains(views(v0)[x]));
                            }
                        }
                    }
                }
                return Some((a, d));
            }
        }
        assert(self.pending() =~= Seq::<(Seq<char>, u8)>::empty());
        None
    }

    fn has_edge_id(&self, id: &String) -> (r: bool)
        ensures
            r == edge_ids(self.edges@).contains(id@),
    {
        let mut k: usize = 0;
        while k < self.edges.len()
            invariant
                k <= self.edges@.len(),
                forall|j: int| 0 <= j < k ==> self.edges@[j].id@ != id@,
            decreases self.edges.len() - k,
        {
            if same(&self.edges[k].id, id) {
                assert(edge_ids(self.edges@)[k as int] == id@);
                return true;
            }
            k = k + 1;
        }
        assert(!edge_ids(self.edges@).contains(id@)) by {
            if edge_ids(self.edges@).contains(id@) {
                let j = choose|j: int| 0 <= j < edge_ids(self.edges@).len() && edge_ids(self.edges@)[j] == id@;
                assert(self.edges@[j].id@ == id@);
            }
        }
        false
    }

    /// Takes in the edges loaded for `current` at `depth`: each edge with a
    /// new id is kept and, when `depth + 1` is still under the limit, puts its
    /// other ends in the queue at `depth + 1`.
    pub fn absorb(&mut self, current: &str, depth: u8, rows: Vec<FlowEdge>)
        requires
            old(self).wf(),
            depth < old(self).max_depth(),
        ensures
            final(self).wf(),
            final(self).max_depth() == old(self).max_depth(),
            final(self).visited() == old(self).visited(),
            final(self).edges() == absorb_edges(old(self).edges(), rows@),
            final(self).pending() == old(self).pending() + absorb_queue(
                old(self).edges(),
                rows@,
                current@,
                (depth + 1) as u8,
                depth + 1 < old(self).max_depth(),
            ),
    {
        let ghost e0 = self.edges@;
        let ghost p0 = self.pending();
        let next: u8 = depth + 1;
        let enqueue = next < self.max_depth;
        let mut k: usize = 0;
        while k < rows.len()
            invariant
                self.wf(),
                self.max_depth() == old(self).max_depth(),
                self.visited() == old(self).visited(),
                e0 == old(self).edges(),
                p0 == old(self).pending(),
                next == depth + 1,
                enqueue == (depth + 1 < old(self).max_depth()),
                k <= rows@.len(),
                self.edges@ == absorb_edges(e0, rows@.take(k as int)),
                self.pending() == p0 + absorb_queue(e0, rows@.take(k as int), current@, next, enqueue),
            decreases rows.len() - k,
        {
            let row = &rows[k];
            proof {
                assert(rows@.take(k + 1).drop_last() =~= rows@.take(k as int));
                assert(rows@.take(k + 1).last() == *row);
            }
            if !self.has_edge_id(&row.id) {
                let ghost pend = self.pending();
                let ghost q1 = self.queue@;
                if enqueue {
                    if !crate::text::str_eq(row.from.as_str(), current) {
                        self.queue.push((row.from.clone(), next));
                    }
                    if !crate::text::str_eq(row.to.as_str(), current) {
                        self.queue.push((row.to.clone(), next));
                    }
                }
                proof {
                    let added = neighbours_of(*row, current@, next, enqueue);
                    assert(self.queue@.skip(self.head as int).map_values(|e: (String, u8)| (e.0@, e.1))
                        =~= pend + added) by {
                        assert(pend =~= q1.skip(self.head as int).map_values(
                            |e: (String, u8)| (e.0@, e.1),
                        ));
                    }
                }
                let ghost before = self.edges@;
                self.edges.push(copy_edge(row));
                proof {
                    assert(edge_ids(self.edges@) =~= edge_ids(before).push(row.id@));
                    crate::text::lemma_push_contains(edge_ids(before), row.id@);
                    assert(edge_ids(self.edges@).no_duplicates()) by {
                        let ids = edge_ids(self.edges@);
                        assert forall|x: int, y: int|
                            0 <= x < ids.len() && 0 <= y < ids.len() && x != y implies ids[x] != ids[y] by {
                            if x == before.len() {
                                assert(edge_ids(before).contains(edge_ids(before)[y]));
                            } else if y == before.len() {
                                assert(edge_ids(before).contains(edge_ids(before)[x]));
                            }
                        }
                    }
                    assert(p0 + absorb_queue(e0, rows@.take(k + 1), current@, next, enqueue) =~= p0
                        + absorb_queue(e0, rows@.take(k as int), current@, next, enqueue) + neighbours_of(
                        *row,
                        current@,
                        next,
                        enqueue,
                    ));
                }
            } else {
                assert(p0 + absorb_queue(e0, rows@.take(k + 1), current@, next, enqueue) =~= p0
                    + absorb_queue(e0, rows@.take(k as int), current@, next, enqueue));
            }
            k = k + 1;
        }
        assert(rows@.take(rows@.len() as int) =~= rows@);
    }

    /// The edges gathered, which never share an id.
    pub fn into_edges(self) -> (r: Vec<FlowEdge>)
        requires
            self.wf(),
        ensures
            r@ == self.edges(),
            edge_ids(r@).no_duplicates(),
    {
        self.edges
    }
}

/// A field-by-field copy of an edge.
pub fn copy_edge(e: &FlowEdge) -> (r: FlowEdge)
    ensures
        r == *e,
{
    FlowEdge {
        id: e.id.clone(),
        from: e.from.clone(),
        to: e.to.clone(),
        tx_hash: e.tx_hash.clone(),
        token_address: e.token_address.clone(),
        amount: e.amount.clone(),
        block_number: e.block_number,
        timestamp: e.timestamp,
        transfer_type: e.transfer_type.clone(),
        protocol: e.protocol.clone(),
        risk_score: e.risk_score,
    }
}

} // verus!
