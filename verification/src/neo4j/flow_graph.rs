//! The flow graph around a wallet: its nodes and edges, the wallets that sent
//! to it, its interactions with exchanges, and the query that shows it.
use vstd::prelude::*;

use crate::exchange::cluster_expander::is_set_of;
use crate::text::{
    concat3, decimal_string, insert_distinct, owned, push_char, same,
    spec_decimal, str_eq, views,
};

verus! {

/// A transfer between two wallets, as read from the relationship table.
#[derive(Debug, Clone)]
pub struct FlowEdge {
    pub id: String,
    pub from: String,
    pub to: String,
    pub tx_hash: String,
    pub token_address: String,
    pub amount: String,
    pub block_number: u64,
    pub timestamp: u64,
    pub transfer_type: String,
    pub protocol: String,
    pub risk_score: u8,
}

/// A wallet of the graph, with its exchange attribution if it has one. `C`
/// is the type of the attribution's confidence.
#[derive(Debug, Clone)]
pub struct FlowNode<C> {
    pub id: String,
    pub label: String,
    pub node_type: String,
    pub entity_name: Option<String>,
    pub entity_type: Option<String>,
    pub exchange_name: Option<String>,
    pub exchange_role: Option<String>,
    pub confidence: Option<C>,
}

/// What is known of an exchange wallet.
#[derive(Debug, Clone)]
pub struct ExchangeMetadata<C> {
    pub exchange_name: String,
    pub exchange_role: String,
    pub confidence: C,
}

/// A direct transfer between the wallet and an exchange wallet.
#[derive(Debug, Clone)]
pub struct ExchangeFlowSummary<C> {
    pub exchange_name: String,
    pub exchange_role: String,
    pub address: String,
    pub direction: String,
    pub tx_hash: String,
    pub token_address: String,
    pub amount: String,
    pub block_number: u64,
    pub confidence: C,
}

/// How to look at the imported graph in the Neo4j browser.
#[derive(Debug, Clone)]
pub struct Neo4jVisualization {
    pub browser_url: String,
    pub cypher: String,
    pub imported_wallet_nodes: usize,
    pub imported_transfer_edges: usize,
    pub imported_exchange_interactions: usize,
}

/// `x` held within `[lo, hi]`.
pub open spec fn spec_clamp(x: int, lo: int, hi: int) -> int {
    if x < lo {
        lo
    } else if x > hi {
        hi
    } else {
        x
    }
}

/// The traversal depth held within 1 to 6 hops.
pub fn clamp_depth(depth: u8) -> (r: u8)
    ensures
        r == spec_clamp(depth as int, 1, 6),
{
    if depth < 1 {
        1
    } else if depth > 6 {
        6
    } else {
        depth
    }
}

/// The per-address row limit held within 1 to 2 000.
pub fn clamp_limit(limit: u64) -> (r: u64)
    ensures
        r == spec_clamp(limit as int, 1, 2000),
{
    if limit < 1 {
        1
    } else if limit > 2000 {
        2000
    } else {
        limit
    }
}

/// A character as written inside a single-quoted Cypher string: `\` and `'`
/// behind a backslash.
pub open spec fn cypher_escape_char(c: char) -> Seq<char> {
    if c == '\\' {
        seq!['\\', '\\']
    } else if c == '\'' {
        seq!['\\', '\'']
    } else {
        seq![c]
    }
}

/// A text as written inside a single-quoted Cypher string.
pub open spec fn cypher_escape(s: Seq<char>) -> Seq<char>
    decreases s.len(),
{
    if s.len() == 0 {
        Seq::empty()
    } else {
        cypher_escape(s.drop_last()) + cypher_escape_char(s.last())
    }
}

fn escape_cypher_text(s: &str) -> (r: String)
    ensures
        r@ == cypher_escape(s@),
{
    let cs = crate::text::chars_of(s);
    let mut r = String::new();
    let mut i: usize = 0;
    while i < cs.len()
        invariant
            i <= cs@.len(),
            r@ == cypher_escape(cs@.take(i as int)),
        decreases cs.len() - i,
    {
        let c = cs[i];
        if c == '\\' {
            push_char(&mut r, '\\');
            push_char(&mut r, '\\');
        } else if c == '\'' {
            push_char(&mut r, '\\');
            push_char(&mut r, '\'');
        } else {
            push_char(&mut r, c);
        }
        assert(cs@.take(i + 1).drop_last() =~= cs@.take(i as int));
        assert(cs@.take(i + 1).last() == c);
        i = i + 1;
        assert(r@ =~= cypher_escape(cs@.take(i as int)));
    }
    assert(cs@.take(cs@.len() as int) =~= cs@);
    r
}

/// The Neo4j browser query that shows the paths of up to `depth` hops (held
/// within 1 to 6) around the wallet, at most `limit` of them (held within 1
/// to 2 000), the address escaped for a single-quoted string.
pub open spec fn spec_neo4j_browser_cypher(address: Seq<char>, depth: u8, limit: u64) -> Seq<char> {
    "MATCH p = (w:Wallet { address: '"@ + cypher_escape(address) + "' })-[*1.."@ + spec_decimal(
        spec_clamp(depth as int, 1, 6) as nat,
    ) + "]-(n) RETURN p LIMIT "@ + spec_decimal(spec_clamp(limit as int, 1, 2000) as nat)
}

/// The Neo4j browser query for the wallet's graph (see [`spec_neo4j_browser_cypher`]).
pub fn neo4j_browser_cypher(address: &str, depth: u8, limit: u64) -> (q: String)
    ensures
        q@ == spec_neo4j_browser_cypher(address@, depth, limit),
{
    let safe_depth = clamp_depth(depth);
    let safe_limit = clamp_limit(limit);
    let escaped = escape_cypher_text(address);
    let d = decimal_string(safe_depth as u64);
    let l = decimal_string(safe_limit);
    let mut q = concat3("MATCH p = (w:Wallet { address: '", escaped.as_str(), "' })-[*1..");
    q.append(d.as_str());
    q.append("]-(n) RETURN p LIMIT ");
    q.append(l.as_str());
    q
}

/// A short label for an address: the address itself when it takes at most 12
/// bytes, else its first 6 bytes, `...` and its last 4 bytes.
pub open spec fn spec_short_address(address: &str) -> Seq<char> {
    let b = vstd::string::StringSliceAdditionalSpecFns::spec_bytes(address);
    if b.len() <= 12 {
        address@
    } else {
        vstd::utf8::decode_utf8(b.subrange(0, 6)) + "..."@ + vstd::utf8::decode_utf8(
            b.subrange(b.len() - 4, b.len() as int),
        )
    }
}

/// The cuts of a long address fall between characters.
pub open spec fn short_address_cuts_ok(address: &str) -> bool {
    let b = vstd::string::StringSliceAdditionalSpecFns::spec_bytes(address);
    b.len() <= 12 || (vstd::utf8::is_char_boundary(b, 6) && vstd::utf8::is_char_boundary(
        b,
        b.len() - 4,
    ))
}

/// A short label for an address (see [`spec_short_address`]).
pub fn short_address(address: &str) -> (r: String)
    requires
        vstd::string::StringSliceAdditionalSpecFns::spec_bytes(address).len() <= usize::MAX,
        short_address_cuts_ok(address),
    ensures
        r@ == spec_short_address(address),
{
    let n = address.len();
    if n <= 12 {
        return owned(address);
    }
    let (head, _) = address.split_at(6);
    let (_, tail) = address.split_at(n - 4);
    proof {
        vstd::utf8::encode_utf8_decode_utf8(head@);
        vstd::utf8::encode_utf8_decode_utf8(tail@);
    }
    concat3(head, "...", tail)
}

/// Some edge goes from `x` to `address`.
pub open spec fn is_direct_sender(edges: Seq<FlowEdge>, address: Seq<char>, x: Seq<char>) -> bool {
    exists|k: int| 0 <= k < edges.len() && #[trigger] edges[k].to@ == address && edges[k].from@ == x
}

fn sends_directly(edges: &[FlowEdge], address: &str, x: &String) -> (r: bool)
    ensures
        r == is_direct_sender(edges@, address@, x@),
{
    let mut k: usize = 0;
    while k < edges.len()
        invariant
            k <= edges@.len(),
            forall|j: int| 0 <= j < k ==> !(edges@[j].to@ == address@ && edges@[j].from@ == x@),
        decreases edges.len() - k,
    {
        if str_eq(edges[k].to.as_str(), address) && same(&edges[k].from, x) {
            return true;
        }
        k = k + 1;
    }
    false
}

fn copy_option(o: &Option<String>) -> (r: Option<String>)
    ensures
        r == *o,
{
    match o {
        Some(s) => Some(s.clone()),
        None => None,
    }
}

/// A field-by-field copy of a node.
pub fn copy_node<C: Copy>(n: &FlowNode<C>) -> (r: FlowNode<C>)
    ensures
        r == *n,
{
    FlowNode {
        id: n.id.clone(),
        label: n.label.clone(),
        node_type: n.node_type.clone(),
        entity_name: copy_option(&n.entity_name),
        entity_type: copy_option(&n.entity_type),
        exchange_name: copy_option(&n.exchange_name),
        exchange_role: copy_option(&n.exchange_role),
        confidence: n.confidence,
    }
}

/// The nodes, in order, of the wallets that sent directly to `address`.
pub fn incoming_origin_nodes<C: Copy>(address: &str, nodes: &[FlowNode<C>], edges: &[FlowEdge]) -> (r:
    Vec<FlowNode<C>>)
    ensures
        r@ == nodes@.filter(|n: FlowNode<C>| is_direct_sender(edges@, address@, n.id@)),
{
    let ghost pred = |n: FlowNode<C>| is_direct_sender(edges@, address@, n.id@);
    let mut r: Vec<FlowNode<C>> = Vec::new();
    let mut i: usize = 0;
    while i < nodes.len()
        invariant
            i <= nodes@.len(),
            pred == (|n: FlowNode<C>| is_direct_sender(edges@, address@, n.id@)),
            r@ == nodes@.take(i as int).filter(pred),
        decreases nodes.len() - i,
    {
        let keep = sends_directly(edges, address, &nodes[i].id);
        proof {
            reveal(Seq::filter);
            assert(nodes@.take(i + 1).drop_last() =~= nodes@.take(i as int));
            assert(nodes@.take(i + 1).last() == nodes@[i as int]);
        }
        if keep {
            let n = copy_node(&nodes[i]);
            r.push(n);
        }
        i = i + 1;
    }
    assert(nodes@.take(nodes@.len() as int) =~= nodes@);
    r
}

/// The keys of an exchange metadata table.
pub open spec fn metadata_keys<C>(meta: Seq<(String, ExchangeMetadata<C>)>) -> Seq<Seq<char>> {
    meta.map_values(|p: (String, ExchangeMetadata<C>)| p.0@)
}

/// The table holds metadata for `a`.
pub open spec fn has_metadata<C>(meta: Seq<(String, ExchangeMetadata<C>)>, a: Seq<char>) -> bool {
    metadata_keys(meta).contains(a)
}

/// The metadata the table holds for `a`.
pub open spec fn metadata_of<C>(meta: Seq<(String, ExchangeMetadata<C>)>, a: Seq<char>) -> ExchangeMetadata<C> {
    meta[choose|i: int| 0 <= i < meta.len() && #[trigger] meta[i].0@ == a].1
}

/// Which summaries the edges give, in order: for each edge, one for a
/// transfer from the wallet to an exchange wallet (`true`), then one for a
/// transfer from an exchange wallet to the wallet (`false`), with the edge's index.
pub open spec fn summary_plan<C>(
    address: Seq<char>,
    edges: Seq<FlowEdge>,
    meta: Seq<(String, ExchangeMetadata<C>)>,
) -> Seq<(int, bool)>
    decreases edges.len(),
{
    if edges.len() == 0 {
        Seq::empty()
    } else {
        let n = edges.len() - 1;
        let e = edges[n];
        summary_plan(address, edges.drop_last(), meta) + (if e.from@ == address && has_metadata(
            meta,
            e.to@,
        ) {
            seq![(n, true)]
        } else {
            Seq::empty()
        }) + (if e.to@ == address && has_metadata(meta, e.from@) {
            seq![(n, false)]
        } else {
            Seq::empty()
        })
    }
}

/// Edge `k` of `edges` gives a summary in direction `outgoing`: it is an
/// outgoing summary when the wallet sends to an address with exchange
/// metadata, an incoming one when an address with exchange metadata sends to
/// the wallet, whatever that metadata says.
pub open spec fn gives_summary<C>(
    address: Seq<char>,
    edges: Seq<FlowEdge>,
    meta: Seq<(String, ExchangeMetadata<C>)>,
    k: int,
    outgoing: bool,
) -> bool {
    &&& 0 <= k < edges.len()
    &&& if outgoing {
        edges[k].from@ == address && exists|i: int| 0 <= i < meta.len() && #[trigger] meta[i].0@ == edges[k].to@
    } else {
        edges[k].to@ == address && exists|i: int| 0 <= i < meta.len() && #[trigger] meta[i].0@ == edges[k].from@
    }
}

/// The summaries are exactly those of the wallet's transfers with addresses
/// that have exchange metadata, of any role: edge `k` gives a summary in a
/// direction if and only if it is a transfer in that direction between the
/// wallet and such an address. They come in edge order, each at most once,
/// the outgoing one of an edge (a transfer to itself) before its incoming one.
pub proof fn lemma_summary_plan_members<C>(
    address: Seq<char>,
    edges: Seq<FlowEdge>,
    meta: Seq<(String, ExchangeMetadata<C>)>,
)
    ensures
        forall|k: int, outgoing: bool|
            #[trigger] summary_plan(address, edges, meta).contains((k, outgoing)) <==> gives_summary(
                address,
                edges,
                meta,
                k,
                outgoing,
            ),
        forall|i: int, j: int|
            0 <= i < j < summary_plan(address, edges, meta).len() ==> ({
                let a = #[trigger] summary_plan(address, edges, meta)[i];
                let b = #[trigger] summary_plan(address, edges, meta)[j];
                a.0 < b.0 || (a.0 == b.0 && a.1 && !b.1)
            }),
    decreases edges.len(),
{
    let plan = summary_plan(address, edges, meta);
    if edges.len() == 0 {
        assert(plan =~= Seq::empty());
    } else {
        let n = edges.len() - 1;
        let e = edges[n];
        let prev = edges.drop_last();
        lemma_summary_plan_members(address, prev, meta);
        let pp = summary_plan(address, prev, meta);
        let out_part: Seq<(int, bool)> = if e.from@ == address && has_metadata(meta, e.to@) {
            seq![(n, true)]
        } else {
            Seq::empty()
        };
        let in_part: Seq<(int, bool)> = if e.to@ == address && has_metadata(meta, e.from@) {
            seq![(n, false)]
        } else {
            Seq::empty()
        };
        assert(plan == pp + out_part + in_part);
        assert forall|x: Seq<char>| has_metadata(meta, x) <==> exists|i: int|
            0 <= i < meta.len() && #[trigger] meta[i].0@ == x by {
            if has_metadata(meta, x) {
                let i = choose|i: int| 0 <= i < metadata_keys(meta).len() && metadata_keys(meta)[i] == x;
                assert(meta[i].0@ == x);
            }
            if exists|i: int| 0 <= i < meta.len() && #[trigger] meta[i].0@ == x {
                let i = choose|i: int| 0 <= i < meta.len() && #[trigger] meta[i].0@ == x;
                assert(metadata_keys(meta)[i] == x);
            }
        }
        assert forall|k: int| 0 <= k < n implies #[trigger] edges[k] == prev[k] by {}
        assert forall|k: int, outgoing: bool| #[trigger] plan.contains((k, outgoing)) <==> gives_summary(
            address,
            edges,
            meta,
            k,
            outgoing,
        ) by {
            if plan.contains((k, outgoing)) {
                let p = choose|p: int| 0 <= p < plan.len() && plan[p] == (k, outgoing);
                if p < pp.len() {
                    assert(pp[p] == plan[p]);
                    assert(pp.contains((k, outgoing)));
                    assert(gives_summary(address, prev, meta, k, outgoing));
                    assert(edges[k] == prev[k]);
                } else if p < pp.len() + out_part.len() {
                    assert(out_part[p - pp.len()] == plan[p]);
                } else {
                    assert(in_part[p - pp.len() - out_part.len()] == plan[p]);
                }
            }
            if gives_summary(address, edges, meta, k, outgoing) {
                if k < n {
                    assert(edges[k] == prev[k]);
                    assert(gives_summary(address, prev, meta, k, outgoing));
                    assert(pp.contains((k, outgoing)));
                    let p = choose|p: int| 0 <= p < pp.len() && pp[p] == (k, outgoing);
                    assert(plan[p] == pp[p]);
                } else if outgoing {
                    assert(plan[pp.len() as int] == (k, outgoing));
                } else {
                    assert(plan[(pp.len() + out_part.len()) as int] == (k, outgoing));
                }
            }
        }
        assert forall|p: int| 0 <= p < pp.len() implies #[trigger] pp[p].0 < n by {
            assert(pp.contains(pp[p]));
            assert(gives_summary(address, prev, meta, pp[p].0, pp[p].1));
        }
        assert forall|i: int, j: int| 0 <= i < j < plan.len() implies ({
            let a = #[trigger] plan[i];
            let b = #[trigger] plan[j];
            a.0 < b.0 || (a.0 == b.0 && a.1 && !b.1)
        }) by {
            if j < pp.len() {
                assert(plan[i] == pp[i] && plan[j] == pp[j]);
            } else if i < pp.len() {
                assert(plan[i] == pp[i]);
                assert(pp[i].0 < n);
                if j < pp.len() + out_part.len() {
                    assert(plan[j] == out_part[j - pp.len()]);
                } else {
                    assert(plan[j] == in_part[j - pp.len() - out_part.len()]);
                }
            } else {
                assert(plan[i] == out_part[i - pp.len()]);
                assert(plan[j] == in_part[j - pp.len() - out_part.len()]);
            }
        }
    }
}

/// `s` summarises edge `e`, outgoing to or incoming from the exchange wallet
/// at its other end.
pub open spec fn is_summary_of<C>(
    s: ExchangeFlowSummary<C>,
    e: FlowEdge,
    outgoing: bool,
    meta: Seq<(String, ExchangeMetadata<C>)>,
) -> bool {
    let ex = if outgoing {
        e.to@
    } else {
        e.from@
    };
    let m = metadata_of(meta, ex);
    &&& s.exchange_name@ == m.exchange_name@
    &&& s.exchange_role@ == m.exchange_role@
    &&& s.confidence == m.confidence
    &&& s.address@ == ex
    &&& s.direction@ == (if outgoing {
        "outgoing"@
    } else {
        "incoming"@
    })
    &&& s.tx_hash@ == e.tx_hash@
    &&& s.token_address@ == e.token_address@
    &&& s.amount@ == e.amount@
    &&& s.block_number == e.block_number
}

fn find_metadata<C>(meta: &[(String, ExchangeMetadata<C>)], key: &String) -> (r: Option<usize>)
    requires
        metadata_keys(meta@).no_duplicates(),
    ensures
        match r {
            Some(i) => i < meta@.len() && meta@[i as int].0@ == key@ && has_metadata(meta@, key@)
                && metadata_of(meta@, key@) == meta@[i as int].1,
            None => !has_metadata(meta@, key@),
        },
{
    let mut i: usize = 0;
    while i < meta.len()
        invariant
            i <= meta@.len(),
            metadata_keys(meta@).no_duplicates(),
            forall|j: int| 0 <= j < i ==> meta@[j].0@ != key@,
        decreases meta.len() - i,
    {
        if same(&meta[i].0, key) {
            proof {
                assert(metadata_keys(meta@)[i as int] == key@);
                let c = choose|j: int| 0 <= j < meta@.len() && #[trigger] meta@[j].0@ == key@;
                assert(metadata_keys(meta@)[c] == meta@[c].0@);
                assert(metadata_keys(meta@)[c] == metadata_keys(meta@)[i as int]);
            }
            return Some(i);
        }
        i = i + 1;
    }
    proof {
        if has_metadata(meta@, key@) {
            let j = choose|j: int| 0 <= j < metadata_keys(meta@).len() && metadata_keys(meta@)[j] == key@;
            assert(meta@[j].0@ == key@);
        }
    }
    None
}

fn summary_from_edge<C: Copy>(
    edge: &FlowEdge,
    exchange_address: &String,
    exchange: &ExchangeMetadata<C>,
    direction: &str,
) -> (s: ExchangeFlowSummary<C>)
    ensures
        s.exchange_name@ == exchange.exchange_name@,
        s.exchange_role@ == exchange.exchange_role@,
        s.confidence == exchange.confidence,
        s.address@ == exchange_address@,
        s.direction@ == direction@,
        s.tx_hash@ == edge.tx_hash@,
        s.token_address@ == edge.token_address@,
        s.amount@ == edge.amount@,
        s.block_number == edge.block_number,
{
    ExchangeFlowSummary {
        exchange_name: exchange.exchange_name.clone(),
        exchange_role: exchange.exchange_role.clone(),
        address: exchange_address.clone(),
        direction: owned(direction),
        tx_hash: edge.tx_hash.clone(),
        token_address: edge.token_address.clone(),
        amount: edge.amount.clone(),
        block_number: edge.block_number,
        confidence: exchange.confidence,
    }
}

/// The wallet's direct transfers with exchange wallets, in edge order (see
/// [`summary_plan`] and [`is_summary_of`]). The metadata table holds each
/// address once.
pub fn exchange_summaries<C: Copy>(
    address: &str,
    edges: &[FlowEdge],
    metadata: &[(String, ExchangeMetadata<C>)],
) -> (r: Vec<ExchangeFlowSummary<C>>)
    requires
        metadata_keys(metadata@).no_duplicates(),
    ensures
        r@.len() == summary_plan(address@, edges@, metadata@).len(),
        forall|i: int|
            0 <= i < r@.len() ==> is_summary_of(
                #[trigger] r@[i],
                edges@[summary_plan(address@, edges@, metadata@)[i].0],
                summary_plan(address@, edges@, metadata@)[i].1,
                metadata@,
            ),
{
    let ghost es = edges@;
    let ghost meta = metadata@;
    let mut r: Vec<ExchangeFlowSummary<C>> = Vec::new();
    let mut k: usize = 0;
    while k < edges.len()
        invariant
            es == edges@,
            meta == metadata@,
            metadata_keys(meta).no_duplicates(),
            k <= es.len(),
            r@.len() == summary_plan(address@, es.take(k as int), meta).len(),
            forall|i: int|
                0 <= i < r@.len() ==> 0 <= #[trigger] summary_plan(address@, es.take(k as int), meta)[i].0
                    < k,
            forall|i: int|
                0 <= i < r@.len() ==> is_summary_of(
                    #[trigger] r@[i],
                    es[summary_plan(address@, es.take(k as int), meta)[i].0],
                    summary_plan(address@, es.take(k as int), meta)[i].1,
                    meta,
                ),
        decreases edges.len() - k,
    {
        let ghost r0 = r@;
        let ghost p0 = summary_plan(address@, es.take(k as int), meta);
        let edge = &edges[k];
        proof {
            assert(es.take(k + 1).drop_last() =~= es.take(k as int));
            assert(es.take(k + 1)[k as int] == *edge);
        }
        let ghost out_entry: Seq<(int, bool)> = if edge.from@ == address@ && has_metadata(meta, edge.to@) {
            seq![(k as int, true)]
        } else {
            Seq::empty()
        };
        let ghost in_entry: Seq<(int, bool)> = if edge.to@ == address@ && has_metadata(meta, edge.from@) {
            seq![(k as int, false)]
        } else {
            Seq::empty()
        };
        assert(summary_plan(address@, es.take(k + 1), meta) == p0 + out_entry + in_entry);
        if str_eq(edge.from.as_str(), address) {
            match find_metadata(metadata, &edge.to) {
                Some(i) => {
                    let s = summary_from_edge(edge, &edge.to, &metadata[i].1, "outgoing");
                    r.push(s);
                },
                None => {},
            }
        }
        let ghost r1 = r@;
        assert(r1 =~= r0 + if out_entry.len() > 0 { seq![r1.last()] } else { Seq::empty() }) by {
            if out_entry.len() == 0 {
                assert(r1 == r0);
            }
        }
        if str_eq(edge.to.as_str(), address) {
            match find_metadata(metadata, &edge.from) {
                Some(i) => {
                    let s = summary_from_edge(edge, &edge.from, &metadata[i].1, "incoming");
                    r.push(s);
                },
                None => {},
            }
        }
        proof {
            let p1 = summary_plan(address@, es.take(k + 1), meta);
            assert forall|i: int| 0 <= i < r@.len() implies 0 <= #[trigger] p1[i].0 < k + 1
                && is_summary_of(r@[i], es[p1[i].0], p1[i].1, meta) by {
                if i < r0.len() {
                    assert(p1[i] == p0[i]);
                    assert(r@[i] == r0[i]);
                } else if i < r1.len() {
                    assert(p1[i] == (k as int, true));
                } else {
                    assert(p1[i] == (k as int, false));
                }
            }
        }
        k = k + 1;
    }
    assert(es.take(es.len() as int) =~= es);
    r
}

/// `x` sends or receives one of the edges.
pub open spec fn is_edge_end(edges: Seq<FlowEdge>, x: Seq<char>) -> bool {
    exists|k: int| #![trigger edges[k]] 0 <= k < edges.len() && (edges[k].from@ == x || edges[k].to@ == x)
}

/// The wallets of the graph: both ends of every edge, and the wallet itself;
/// each once, in order of first appearance, the wallet last.
pub fn graph_node_ids(address: &str, edges: &[FlowEdge]) -> (r: Vec<String>)
    ensures
        is_set_of(r@, |x: Seq<char>| is_edge_end(edges@, x) || x == address@),
{
    let ghost es = edges@;
    let mut r: Vec<String> = Vec::new();
    let mut i: usize = 0;
    while i < edges.len()
        invariant
            es == edges@,
            i <= es.len(),
            views(r@).no_duplicates(),
            forall|x: Seq<char>| #[trigger] views(r@).contains(x) <==> is_edge_end(es.take(i as int), x),
        decreases edges.len() - i,
    {
        let e = &edges[i];
        insert_distinct(&mut r, &e.from);
        insert_distinct(&mut r, &e.to);
        proof {
            let p = es.take(i as int);
            let q = es.take(i + 1);
            assert forall|x: Seq<char>| is_edge_end(q, x) <==> (is_edge_end(p, x) || x == e.from@ || x
                == e.to@) by {
                if is_edge_end(q, x) {
                    let k = choose|k: int| #![trigger q[k]] 0 <= k < q.len() && (q[k].from@ == x || q[k].to@ == x);
                    if k < i {
                        assert(p[k] == q[k]);
                    }
                }
                if is_edge_end(p, x) {
                    let k = choose|k: int| #![trigger p[k]] 0 <= k < p.len() && (p[k].from@ == x || p[k].to@ == x);
                    assert(q[k] == p[k]);
                }
                if x == e.from@ || x == e.to@ {
                    assert(q[i as int] == *e);
                }
            }
        }
        i = i + 1;
    }
    assert(es.take(es.len() as int) =~= es);
    let a = owned(address);
    insert_distinct(&mut r, &a);
    r
}

/// The node of a wallet: an exchange wallet labelled `name (role)` with its
/// attribution when metadata is known, else a wallet labelled by its short address.
pub fn flow_node<C: Copy>(node_id: &str, meta: Option<&ExchangeMetadata<C>>) -> (n: FlowNode<C>)
    requires
        meta is None ==> vstd::string::StringSliceAdditionalSpecFns::spec_bytes(node_id).len()
            <= usize::MAX && short_address_cuts_ok(node_id),
    ensures
        n.id@ == node_id@,
        n.entity_name is None,
        n.entity_type is None,
        match meta {
            Some(m) => {
                &&& n.label@ == m.exchange_name@ + " ("@ + m.exchange_role@ + ")"@
                &&& n.node_type@ == "exchange_wallet"@
                &&& n.exchange_name matches Some(x) && x@ == m.exchange_name@
                &&& n.exchange_role matches Some(x) && x@ == m.exchange_role@
                &&& n.confidence == Some(m.confidence)
            },
            None => {
                &&& n.label@ == spec_short_address(node_id)
                &&& n.node_type@ == "wallet"@
                &&& n.exchange_name is None
                &&& n.exchange_role is None
                &&& n.confidence is None
            },
        },
{
    match meta {
        Some(m) => {
            let mut label = concat3(m.exchange_name.as_str(), " (", m.exchange_role.as_str());
            label.append(")");
            FlowNode {
                id: owned(node_id),
                label,
                node_type: owned("exchange_wallet"),
                entity_name: None,
                entity_type: None,
                exchange_name: Some(m.exchange_name.clone()),
                exchange_role: Some(m.exchange_role.clone()),
                confidence: Some(m.confidence),
            }
        },
        None => FlowNode {
            id: owned(node_id),
            label: short_address(node_id),
            node_type: owned("wallet"),
            entity_name: None,
            entity_type: None,
            exchange_name: None,
            exchange_role: None,
            confidence: None,
        },
    }
}

/// Where the Neo4j browser is served.
pub const NEO4J_BROWSER_URL: &'static str = "http://localhost:7474/browser/";

/// The browser link, the query that shows the wallet's graph, and how many
/// nodes, edges and exchange interactions were imported.
pub fn visualization(
    address: &str,
    depth: u8,
    limit: u64,
    imported_wallet_nodes: usize,
    imported_transfer_edges: usize,
    imported_exchange_interactions: usize,
) -> (v: Neo4jVisualization)
    ensures
        v.browser_url@ == NEO4J_BROWSER_URL@,
        v.cypher@ == spec_neo4j_browser_cypher(address@, depth, limit),
        v.imported_wallet_nodes == imported_wallet_nodes,
        v.imported_transfer_edges == imported_transfer_edges,
        v.imported_exchange_interactions == imported_exchange_interactions,
{
    Neo4jVisualization {
        browser_url: owned(NEO4J_BROWSER_URL),
        cypher: neo4j_browser_cypher(address, depth, limit),
        imported_wallet_nodes,
        imported_transfer_edges,
        imported_exchange_interactions,
    }
}

} // verus!
