//! The parameters of the wallet endpoints and the data-quality report of a
//! wallet investigation.
use vstd::prelude::*;

use crate::neo4j::flow_graph::{clamp_depth, clamp_limit, spec_clamp};
use crate::text::owned;

verus! {

/// Query parameters of the wallet graph endpoint.
#[derive(Debug, Clone)]
pub struct WalletGraphQuery {
    pub depth: Option<u8>,
    pub limit: Option<u64>,
}

/// Query parameters of the wallet AML risk endpoint.
#[derive(Debug, Clone)]
pub struct WalletAmlRiskQuery {
    pub window_days: Option<u16>,
    pub top_counterparties: Option<usize>,
    pub max_events: Option<u64>,
}

/// Query parameters of the wallet investigation endpoint.
#[derive(Debug, Clone)]
pub struct WalletInvestigationQuery {
    pub depth: Option<u8>,
    pub limit: Option<u64>,
    pub window_days: Option<u16>,
    pub top_counterparties: Option<usize>,
    pub max_events: Option<u64>,
}

/// How complete the data behind an investigation is.
#[derive(Debug, Clone)]
pub struct InvestigationDataQuality {
    pub graph_depth: u8,
    pub graph_edge_limit: u64,
    pub graph_nodes: usize,
    pub graph_edges: usize,
    pub fingerprint_event_limit: u64,
    pub fingerprint_is_truncated: bool,
    pub observed_transfers: u64,
    pub warnings: Vec<String>,
}

/// The default graph depth, in hops.
pub const DEFAULT_GRAPH_DEPTH: u8 = 3;

/// The default number of relationship rows loaded per address.
pub const DEFAULT_GRAPH_LIMIT: u64 = 500;

/// The depth and per-address limit asked of the graph endpoint, defaulting to
/// 3 hops and 500 rows.
pub fn graph_request_params(query: &WalletGraphQuery) -> (r: (u8, u64))
    ensures
        r.0 == match query.depth {
            Some(d) => d,
            None => DEFAULT_GRAPH_DEPTH,
        },
        r.1 == match query.limit {
            Some(l) => l,
            None => DEFAULT_GRAPH_LIMIT,
        },
{
    let depth = match query.depth {
        Some(d) => d,
        None => DEFAULT_GRAPH_DEPTH,
    };
    let limit = match query.limit {
        Some(l) => l,
        None => DEFAULT_GRAPH_LIMIT,
    };
    (depth, limit)
}

/// The graph depth and edge limit of an investigation: the defaults of the
/// graph endpoint, held within 1 to 6 hops and 1 to 2 000 rows.
pub fn investigation_graph_params(query: &WalletInvestigationQuery) -> (r: (u8, u64))
    ensures
        r.0 == spec_clamp(
            match query.depth {
                Some(d) => d,
                None => DEFAULT_GRAPH_DEPTH,
            } as int,
            1,
            6,
        ),
        r.1 == spec_clamp(
            match query.limit {
                Some(l) => l,
                None => DEFAULT_GRAPH_LIMIT,
            } as int,
            1,
            2000,
        ),
{
    let depth = match query.depth {
        Some(d) => d,
        None => DEFAULT_GRAPH_DEPTH,
    };
    let limit = match query.limit {
        Some(l) => l,
        None => DEFAULT_GRAPH_LIMIT,
    };
    (clamp_depth(depth), clamp_limit(limit))
}

/// The warnings of an investigation, in order: a truncated event sample; no
/// observed transfers, or fewer than three; a graph that reached its edge
/// limit; a depth at the cap of 6.
pub open spec fn spec_quality_warnings(
    graph_edges: usize,
    graph_depth: u8,
    graph_edge_limit: u64,
    fingerprint_is_truncated: bool,
    observed_transfers: u64,
) -> Seq<Seq<char>> {
    (if fingerprint_is_truncated {
        seq!["fingerprint_event_sample_truncated"@]
    } else {
        Seq::empty()
    }) + (if observed_transfers == 0 {
        seq!["no_observed_flow_history"@]
    } else if observed_transfers < 3 {
        seq!["low_observed_flow_volume"@]
    } else {
        Seq::empty()
    }) + (if graph_edges >= graph_edge_limit {
        seq!["graph_edge_limit_reached"@]
    } else {
        Seq::empty()
    }) + (if graph_depth >= 6 {
        seq!["graph_depth_capped"@]
    } else {
        Seq::empty()
    })
}

/// The data-quality report of an investigation from the sizes of its graph
/// and of its fingerprint sample (see [`spec_quality_warnings`]).
pub fn build_data_quality(
    graph_nodes: usize,
    graph_edges: usize,
    graph_depth: u8,
    graph_edge_limit: u64,
    fingerprint_event_limit: u64,
    fingerprint_is_truncated: bool,
    observed_transfers: u64,
) -> (q: InvestigationDataQuality)
    ensures
        q.graph_depth == graph_depth,
        q.graph_edge_limit == graph_edge_limit,
        q.graph_nodes == graph_nodes,
        q.graph_edges == graph_edges,
        q.fingerprint_event_limit == fingerprint_event_limit,
        q.fingerprint_is_truncated == fingerprint_is_truncated,
        q.observed_transfers == observed_transfers,
        crate::text::views(q.warnings@) == spec_quality_warnings(
            graph_edges,
            graph_depth,
            graph_edge_limit,
            fingerprint_is_truncated,
            observed_transfers,
        ),
{
    let mut warnings: Vec<String> = Vec::new();
    let ghost w0 = if fingerprint_is_truncated {
        seq!["fingerprint_event_sample_truncated"@]
    } else {
        Seq::<Seq<char>>::empty()
    };
    if fingerprint_is_truncated {
        warnings.push(owned("fingerprint_event_sample_truncated"));
    }
    assert(crate::text::views(warnings@) =~= w0);
    let ghost w1 = w0 + if observed_transfers == 0 {
        seq!["no_observed_flow_history"@]
    } else if observed_transfers < 3 {
        seq!["low_observed_flow_volume"@]
    } else {
        Seq::<Seq<char>>::empty()
    };
    if observed_transfers == 0 {
        warnings.push(owned("no_observed_flow_history"));
    } else if observed_transfers < 3 {
        warnings.push(owned("low_observed_flow_volume"));
    }
    assert(crate::text::views(warnings@) =~= w1);
    let ghost w2 = w1 + if graph_edges >= graph_edge_limit {
        seq!["graph_edge_limit_reached"@]
    } else {
        Seq::<Seq<char>>::empty()
    };
    if graph_edges as u64 >= graph_edge_limit {
        warnings.push(owned("graph_edge_limit_reached"));
    }
    assert(crate::text::views(warnings@) =~= w2);
    if graph_depth >= 6 {
        warnings.push(owned("graph_depth_capped"));
    }
    assert(crate::text::views(warnings@) =~= spec_quality_warnings(
        graph_edges,
        graph_depth,
        graph_edge_limit,
        fingerprint_is_truncated,
        observed_transfers,
    ));
    InvestigationDataQuality {
        graph_depth,
        graph_edge_limit,
        graph_nodes,
        graph_edges,
        fingerprint_event_limit,
        fingerprint_is_truncated,
        observed_transfers,
        warnings,
    }
}

} // verus!
