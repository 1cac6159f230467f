use tron_aml::neo4j::client::normalize_bolt_endpoint;
use tron_aml::neo4j::edges::{interaction_id, safe_relationship_type};
use tron_aml::neo4j::flow_graph::{
    exchange_summaries, flow_node, graph_node_ids, incoming_origin_nodes, neo4j_browser_cypher,
    short_address, visualization, ExchangeMetadata, FlowEdge, FlowNode,
};
use tron_aml::neo4j::neighborhood::NeighborhoodWalk;
use tron_aml::neo4j::nodes::node_type_label_query;
use tron_aml::neo4j::queries::address_graph_query;

fn edge(id: &str, from: &str, to: &str) -> FlowEdge {
    FlowEdge {
        id: id.to_string(),
        from: from.to_string(),
        to: to.to_string(),
        tx_hash: format!("tx-{}", id),
        token_address: "TRX".to_string(),
        amount: "1".to_string(),
        block_number: 1,
        timestamp: 1,
        transfer_type: "native_transfer".to_string(),
        protocol: "".to_string(),
        risk_score: 0,
    }
}

#[test]
fn strips_bolt_scheme_for_neo4rs() {
    assert_eq!(
        normalize_bolt_endpoint("bolt://localhost:7687"),
        "localhost:7687"
    );
}

#[test]
fn adds_default_bolt_port() {
    assert_eq!(normalize_bolt_endpoint("localhost"), "localhost:7687");
}

#[test]
fn strips_neo4j_scheme_and_white_space() {
    assert_eq!(normalize_bolt_endpoint("  neo4j://db.internal  "), "db.internal:7687");
    assert_eq!(normalize_bolt_endpoint("db:7000"), "db:7000");
}

#[test]
fn builds_browser_cypher_for_root_wallet() {
    let cypher = neo4j_browser_cypher("TAddress", 3, 500);

    assert_eq!(
        cypher,
        "MATCH p = (w:Wallet { address: 'TAddress' })-[*1..3]-(n) RETURN p LIMIT 500"
    );
}

#[test]
fn browser_cypher_clamps_and_escapes() {
    assert_eq!(
        neo4j_browser_cypher("a'b\\c", 0, 0),
        "MATCH p = (w:Wallet { address: 'a\\'b\\\\c' })-[*1..1]-(n) RETURN p LIMIT 1"
    );
    assert_eq!(
        neo4j_browser_cypher("x", 9, 99_999),
        "MATCH p = (w:Wallet { address: 'x' })-[*1..6]-(n) RETURN p LIMIT 2000"
    );
}

#[test]
fn summarizes_direct_exchange_interactions() {
    let edge = FlowEdge {
        id: "edge".to_string(),
        from: "wallet".to_string(),
        to: "exchange_wallet".to_string(),
        tx_hash: "tx".to_string(),
        token_address: "TRX".to_string(),
        amount: "100".to_string(),
        block_number: 10,
        timestamp: 1,
        transfer_type: "native_transfer".to_string(),
        protocol: "".to_string(),
        risk_score: 0,
    };

    let metadata = vec![(
        "exchange_wallet".to_string(),
        ExchangeMetadata {
            exchange_name: "Binance".to_string(),
            exchange_role: "HOT".to_string(),
            confidence: 1.0f32,
        },
    )];

    let summaries = exchange_summaries("wallet", &[edge], &metadata);

    assert_eq!(summaries.len(), 1);
    assert_eq!(summaries[0].direction, "outgoing");
    assert_eq!(summaries[0].exchange_name, "Binance");
}

#[test]
fn incoming_exchange_transfers_are_summarized_too() {
    let metadata = vec![(
        "ex".to_string(),
        ExchangeMetadata { exchange_name: "OKX".to_string(), exchange_role: "HOT".to_string(), confidence: 7u32 },
    )];
    let edges = vec![edge("1", "ex", "w"), edge("2", "other", "w"), edge("3", "w", "ex")];
    let summaries = exchange_summaries("w", &edges, &metadata);
    assert_eq!(summaries.len(), 2);
    assert_eq!(summaries[0].direction, "incoming");
    assert_eq!(summaries[0].tx_hash, "tx-1");
    assert_eq!(summaries[0].address, "ex");
    assert_eq!(summaries[0].confidence, 7);
    assert_eq!(summaries[1].direction, "outgoing");
    assert_eq!(summaries[1].tx_hash, "tx-3");
}

#[test]
fn short_addresses_keep_six_and_four_bytes() {
    assert_eq!(short_address("TAUN6FwrnwwmaEqYcckffC7wYmbaS6cBiX"), "TAUN6F...cBiX");
    assert_eq!(short_address("short"), "short");
    assert_eq!(short_address("exactly12chr"), "exactly12chr");
}

#[test]
fn nodes_are_labelled_by_their_exchange_or_address() {
    let meta = ExchangeMetadata { exchange_name: "Binance".to_string(), exchange_role: "HOT".to_string(), confidence: 1u8 };
    let n: FlowNode<u8> = flow_node("TAUN6FwrnwwmaEqYcckffC7wYmbaS6cBiX", Some(&meta));
    assert_eq!(n.label, "Binance (HOT)");
    assert_eq!(n.node_type, "exchange_wallet");
    assert_eq!(n.confidence, Some(1));
    let w: FlowNode<u8> = flow_node("TAUN6FwrnwwmaEqYcckffC7wYmbaS6cBiX", None);
    assert_eq!(w.label, "TAUN6F...cBiX");
    assert_eq!(w.node_type, "wallet");
    assert!(w.exchange_name.is_none());
}

#[test]
fn incoming_origins_are_the_direct_senders() {
    let nodes: Vec<FlowNode<u8>> = ["a", "b", "w", "c"].iter().map(|id| flow_node(id, None)).collect();
    let edges = vec![edge("1", "a", "w"), edge("2", "w", "b"), edge("3", "c", "b")];
    let origins = incoming_origin_nodes("w", &nodes, &edges);
    assert_eq!(origins.len(), 1);
    assert_eq!(origins[0].id, "a");
}

#[test]
fn graph_nodes_are_both_ends_and_the_wallet() {
    let edges = vec![edge("1", "a", "b"), edge("2", "b", "a")];
    assert_eq!(graph_node_ids("w", &edges), vec!["a".to_string(), "b".to_string(), "w".to_string()]);
    assert_eq!(graph_node_ids("a", &edges), vec!["a".to_string(), "b".to_string()]);
}

#[test]
fn visualization_reports_counts() {
    let v = visualization("TAddress", 3, 500, 4, 5, 6);
    assert_eq!(v.browser_url, "http://localhost:7474/browser/");
    assert_eq!(v.cypher, "MATCH p = (w:Wallet { address: 'TAddress' })-[*1..3]-(n) RETURN p LIMIT 500");
    assert_eq!((v.imported_wallet_nodes, v.imported_transfer_edges, v.imported_exchange_interactions), (4, 5, 6));
}

#[test]
fn unknown_relationship_types_become_money_flow() {
    assert_eq!(safe_relationship_type("SWAP"), "SWAP");
    assert_eq!(safe_relationship_type("TRC20_TRANSFER"), "TRC20_TRANSFER");
    assert_eq!(safe_relationship_type("DROP DATABASE"), "MONEY_FLOW");
    assert_eq!(safe_relationship_type("swap"), "MONEY_FLOW");
}

#[test]
fn node_type_labels() {
    assert!(node_type_label_query("exchange_wallet").ends_with("SET w:ExchangeWallet"));
    assert!(node_type_label_query("exchange_deposit").ends_with("SET w:ExchangeWallet"));
    assert!(node_type_label_query("bridge").ends_with("SET w:Bridge:Protocol"));
    assert!(node_type_label_query("protocol").ends_with("SET w:Protocol"));
    assert!(node_type_label_query("wallet").ends_with("SET w:ExternalWallet"));
}

#[test]
fn interaction_ids_join_their_parts() {
    assert_eq!(interaction_id("w", "Binance", "ex", "tx", "outgoing"), "w:Binance:ex:tx:outgoing");
}

#[test]
fn graph_query_embeds_the_depth() {
    let q = address_graph_query(4);
    assert!(q.contains("(a:Wallet)-[*1..4]-(b)"));
    assert!(q.contains("LIMIT 500"));
}

#[test]
fn the_walk_loads_each_address_once_within_the_depth() {
    let mut walk = NeighborhoodWalk::new("w", 2);
    let (a, d) = walk.next_address().expect("root");
    assert_eq!((a.as_str(), d), ("w", 0));
    walk.absorb("w", 0, vec![edge("1", "x", "w"), edge("2", "w", "y"), edge("1", "x", "w")]);
    let (a, d) = walk.next_address().expect("x");
    assert_eq!((a.as_str(), d), ("x", 1));
    walk.absorb("x", 1, vec![edge("1", "x", "w"), edge("3", "x", "z")]);
    let (a, d) = walk.next_address().expect("y");
    assert_eq!((a.as_str(), d), ("y", 1));
    walk.absorb("y", 1, vec![]);
    assert!(walk.next_address().is_none());
    let edges = walk.into_edges();
    let ids: Vec<&str> = edges.iter().map(|e| e.id.as_str()).collect();
    assert_eq!(ids, vec!["1", "2", "3"]);
}

#[test]
fn schema_statements_create_constraints_then_indexes() {
    let statements = tron_aml::neo4j::client::schema_statements();
    assert_eq!(statements.len(), 21);
    assert!(statements[0].starts_with("CREATE CONSTRAINT wallet_address"));
    assert!(statements.iter().all(|s| s.contains("IF NOT EXISTS")));
}
