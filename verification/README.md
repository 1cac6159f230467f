# tron_aml

Anti-money-laundering analysis of TRON transfers, written in Verus.

`src/` is the verified library:

- `aml/` — net flows per address and token, and the swap, bridge, liquidity
  and mint/burn detectors built on them; simple laundering heuristics.
- `counterparty.rs` — per-pair, per-token inbound and outbound relations.
- `address_intelligence.rs` — per-address profiles of a set of transfers.
- `exchange/` — exchange wallet seeds, entity ids, fan-in/fan-out
  heuristics, cluster expansion and the classification of addresses.
- `neo4j/` — graph queries, node and edge naming, the flow-graph pieces and
  the breadth-first walk that gathers a wallet's neighbourhood.
- `exposure.rs` — the walk that traces exposure from a risky address.
- `rpc.rs` — the node client's retry policy.
- `db.rs` — which statements of an SQL script run, and the required table layouts.
- `config.rs`, `handlers.rs`, `cli.rs`, `progress.rs`, `models.rs` — settings,
  endpoint parameters, argument parsing, wallet typing and stored rows.
- `text.rs` — the string operations the rest is proved with.

`app/` holds what talks to ClickHouse, Neo4j, the TRON node and HTTP clients,
and the floating-point confidence and exposure scores. The SQL scripts are
read at run time from `sql/`.
