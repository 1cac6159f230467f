//! Schema upkeep of the ClickHouse databases: which statements of an SQL
//! script run, which table layouts are required, and which tables are dropped.
use vstd::prelude::*;

use crate::text::{
    chars_of, concat3, spec_starts_with, spec_trim, string_of_range, str_eq,
    trim_bounds,
};

verus! {

/// The pieces of `s` between occurrences of `c` (`str::split` with a
/// character pattern): one more piece than there are separators.
pub open spec fn split_on(s: Seq<char>, c: char) -> Seq<Seq<char>>
    decreases s.len(),
{
    if s.len() == 0 {
        seq![Seq::empty()]
    } else {
        let p = split_on(s.drop_last(), c);
        if s.last() == c {
            p.push(Seq::empty())
        } else {
            p.update(p.len() - 1, p.last().push(s.last()))
        }
    }
}

proof fn lemma_split_on_nonempty(s: Seq<char>, c: char)
    ensures
        split_on(s, c).len() >= 1,
    decreases s.len(),
{
    if s.len() > 0 {
        lemma_split_on_nonempty(s.drop_last(), c);
    }
}

/// A line that holds SQL: not blank and not a `--` comment.
pub open spec fn is_executable_line(line: Seq<char>) -> bool {
    spec_trim(line).len() > 0 && !spec_starts_with(spec_trim(line), "--"@)
}

/// A statement holds some SQL: one of its lines is neither blank nor a comment.
pub open spec fn spec_has_executable_sql(stmt: Seq<char>) -> bool {
    exists|k: int|
        0 <= k < split_on(stmt, '\n').len() && is_executable_line(#[trigger] split_on(stmt, '\n')[k])
}

fn executable_line(line: &Vec<char>) -> (r: bool)
    ensures
        r == is_executable_line(line@),
{
    let (a, b) = trim_bounds(line);
    proof {
        reveal_strlit("--");
    }
    if a == b {
        return false;
    }
    let ghost t = line@.subrange(a as int, b as int);
    if b - a >= 2 && line[a] == '-' && line[a + 1] == '-' {
        assert(t.subrange(0, 2) =~= "--"@);
        return false;
    }
    proof {
        if spec_starts_with(t, "--"@) {
            assert(t.subrange(0, 2)[0] == t[0]);
            assert(t.subrange(0, 2)[1] == t[1]);
        }
    }
    true
}

/// Whether the statement holds some SQL (see [`spec_has_executable_sql`]).
pub fn has_executable_sql(stmt: &str) -> (r: bool)
    ensures
        r == spec_has_executable_sql(stmt@),
{
    let cs = chars_of(stmt);
    let ghost s = cs@;
    let mut cur: Vec<char> = Vec::new();
    let mut i: usize = 0;
    while i < cs.len()
        invariant
            s == cs@,
            s == stmt@,
            i <= s.len(),
            split_on(s.take(i as int), '\n').len() >= 1,
            cur@ == split_on(s.take(i as int), '\n').last(),
            forall|k: int|
                0 <= k < split_on(s.take(i as int), '\n').len() - 1 ==> !is_executable_line(
                    #[trigger] split_on(s.take(i as int), '\n')[k],
                ),
        decreases cs.len() - i,
    {
        let ch = cs[i];
        let ghost p = split_on(s.take(i as int), '\n');
        proof {
            assert(s.take(i + 1).drop_last() =~= s.take(i as int));
            assert(s.take(i + 1).last() == ch);
        }
        if ch == '\n' {
            if executable_line(&cur) {
                proof {
                    let q = split_on(s, '\n');
                    lemma_split_prefix(s, '\n', i + 1);
                    assert(split_on(s.take(i + 1), '\n') == p.push(Seq::empty()));
                    assert(q[p.len() - 1] == p.push(Seq::empty())[p.len() - 1]);
                    assert(p.push(Seq::empty())[p.len() - 1] == p.last());
                    assert(is_executable_line(q[p.len() - 1]));
                }
                return true;
            }
            cur = Vec::new();
            proof {
                let n = split_on(s.take(i + 1), '\n');
                assert(n == p.push(Seq::empty()));
                assert(cur@ =~= n.last());
                assert forall|k: int| 0 <= k < n.len() - 1 implies !is_executable_line(#[trigger] n[k]) by {
                    assert(n[k] == p[k]);
                }
            }
        } else {
            cur.push(ch);
            proof {
                let n = split_on(s.take(i + 1), '\n');
                assert(n == p.update(p.len() - 1, p.last().push(ch)));
                assert(cur@ =~= n.last());
                assert forall|k: int| 0 <= k < n.len() - 1 implies !is_executable_line(#[trigger] n[k]) by {
                    assert(n[k] == p[k]);
                }
            }
        }
        i = i + 1;
    }
    assert(s.take(s.len() as int) =~= s);
    let r = executable_line(&cur);
    proof {
        let q = split_on(s, '\n');
        if r {
            assert(is_executable_line(q[q.len() - 1]));
        } else {
            assert forall|k: int| 0 <= k < q.len() implies !is_executable_line(#[trigger] q[k]) by {
            }
        }
    }
    r
}

/// Splitting a longer text keeps the complete pieces of a shorter prefix.
proof fn lemma_split_prefix(s: Seq<char>, c: char, n: int)
    requires
        0 <= n <= s.len(),
    ensures
        split_on(s.take(n), c).len() <= split_on(s, c).len(),
        forall|k: int|
            0 <= k < split_on(s.take(n), c).len() - 1 ==> #[trigger] split_on(s, c)[k] == split_on(
                s.take(n),
                c,
            )[k],
    decreases s.len() - n,
{
    lemma_split_on_nonempty(s.take(n), c);
    if n < s.len() {
        lemma_split_prefix(s, c, n + 1);
        let a = split_on(s.take(n), c);
        let b = split_on(s.take(n + 1), c);
        assert(s.take(n + 1).drop_last() =~= s.take(n));
        assert forall|k: int| 0 <= k < a.len() - 1 implies #[trigger] split_on(s, c)[k] == a[k] by {
            assert(b[k] == a[k]);
        }
    } else {
        assert(s.take(n) =~= s);
    }
}

/// Each piece trimmed.
pub open spec fn trimmed_all(ps: Seq<Seq<char>>) -> Seq<Seq<char>> {
    ps.map_values(|p: Seq<char>| spec_trim(p))
}

/// Which trimmed statements run.
pub open spec fn runs() -> spec_fn(Seq<char>) -> bool {
    |t: Seq<char>| spec_has_executable_sql(t)
}

/// The statements of an SQL script that are run, in order: the script split
/// at `;`, each piece trimmed, and those that hold SQL kept.
pub open spec fn spec_executable_statements(sql: Seq<char>) -> Seq<Seq<char>> {
    trimmed_all(split_on(sql, ';')).filter(runs())
}

proof fn lemma_statements_step(ps: Seq<Seq<char>>)
    requires
        ps.len() >= 1,
    ensures
        trimmed_all(ps).filter(runs()) == trimmed_all(ps.drop_last()).filter(runs()) + (if spec_has_executable_sql(
            spec_trim(ps.last()),
        ) {
            seq![spec_trim(ps.last())]
        } else {
            Seq::empty()
        }),
{
    reveal(Seq::filter);
    assert(trimmed_all(ps).drop_last() =~= trimmed_all(ps.drop_last()));
    assert(trimmed_all(ps).last() == spec_trim(ps.last()));
    if spec_has_executable_sql(spec_trim(ps.last())) {
        assert(trimmed_all(ps.drop_last()).filter(runs()).push(spec_trim(ps.last())) =~= trimmed_all(
            ps.drop_last(),
        ).filter(runs()) + seq![spec_trim(ps.last())]);
    } else {
        assert(trimmed_all(ps.drop_last()).filter(runs()) =~= trimmed_all(ps.drop_last()).filter(
            runs(),
        ) + Seq::<Seq<char>>::empty());
    }
}

fn runnable_statement(piece: &Vec<char>) -> (r: Option<String>)
    ensures
        match r {
            Some(t) => spec_has_executable_sql(spec_trim(piece@)) && t@ == spec_trim(piece@),
            None => !spec_has_executable_sql(spec_trim(piece@)),
        },
{
    let (a, b) = trim_bounds(piece);
    let t = string_of_range(piece, a, b);
    if has_executable_sql(t.as_str()) {
        Some(t)
    } else {
        None
    }
}

/// The statements of an SQL script that are run (see [`spec_executable_statements`]).
pub fn executable_statements(sql: &str) -> (r: Vec<String>)
    ensures
        crate::text::views(r@) == spec_executable_statements(sql@),
{
    let cs = chars_of(sql);
    let ghost s = cs@;
    let mut r: Vec<String> = Vec::new();
    let mut cur: Vec<char> = Vec::new();
    let mut i: usize = 0;
    proof {
        lemma_split_on_nonempty(s.take(0), ';');
        assert(crate::text::views(r@) =~= trimmed_all(split_on(s.take(0), ';').drop_last()).filter(runs())) by {
            reveal(Seq::filter);
            assert(split_on(s.take(0), ';').drop_last() =~= Seq::<Seq<char>>::empty());
            assert(trimmed_all(Seq::<Seq<char>>::empty()) =~= Seq::<Seq<char>>::empty());
        }
    }
    while i < cs.len()
        invariant
            s == cs@,
            s == sql@,
            i <= s.len(),
            split_on(s.take(i as int), ';').len() >= 1,
            cur@ == split_on(s.take(i as int), ';').last(),
            crate::text::views(r@) == trimmed_all(split_on(s.take(i as int), ';').drop_last()).filter(
                runs(),
            ),
        decreases cs.len() - i,
    {
        let ch = cs[i];
        let ghost p = split_on(s.take(i as int), ';');
        proof {
            assert(s.take(i + 1).drop_last() =~= s.take(i as int));
            assert(s.take(i + 1).last() == ch);
        }
        if ch == ';' {
            let ghost r0 = r@;
            match runnable_statement(&cur) {
                Some(t) => {
                    r.push(t);
                },
                None => {},
            }
            proof {
                let n = split_on(s.take(i + 1), ';');
                assert(n == p.push(Seq::empty()));
                assert(n.drop_last() =~= p);
                lemma_statements_step(p);
                assert(crate::text::views(r@) =~= trimmed_all(n.drop_last()).filter(runs()));
            }
            cur = Vec::new();
            proof {
                let n = split_on(s.take(i + 1), ';');
                assert(cur@ =~= n.last());
            }
        } else {
            cur.push(ch);
            proof {
                let n = split_on(s.take(i + 1), ';');
                assert(n == p.update(p.len() - 1, p.last().push(ch)));
                assert(cur@ =~= n.last());
                assert(n.drop_last() =~= p.drop_last());
            }
        }
        i = i + 1;
    }
    assert(s.take(s.len() as int) =~= s);
    let ghost r0 = r@;
    match runnable_statement(&cur) {
        Some(t) => {
            r.push(t);
        },
        None => {},
    }
    proof {
        lemma_statements_step(split_on(s, ';'));
        assert(crate::text::views(r@) =~= spec_executable_statements(sql@));
    }
    r
}

/// A column as the database describes it.
#[derive(Debug, Clone)]
pub struct ColumnInfo {
    pub name: String,
    pub data_type: String,
}

/// Some column has this name and type.
pub open spec fn has_column(actual: Seq<ColumnInfo>, name: Seq<char>, data_type: Seq<char>) -> bool {
    exists|k: int| 0 <= k < actual.len() && #[trigger] actual[k].name@ == name && actual[k].data_type@ == data_type
}

/// Every required column is present with its type (other columns may be there too).
pub open spec fn spec_schema_matches(actual: Seq<ColumnInfo>, required: Seq<(&'static str, &'static str)>) -> bool {
    forall|j: int| 0 <= j < required.len() ==> has_column(actual, (#[trigger] required[j]).0@, required[j].1@)
}

fn find_column(actual: &[ColumnInfo], name: &str, data_type: &str) -> (r: bool)
    ensures
        r == has_column(actual@, name@, data_type@),
{
    let mut k: usize = 0;
    while k < actual.len()
        invariant
            k <= actual@.len(),
            forall|j: int| 0 <= j < k ==> !(actual@[j].name@ == name@ && actual@[j].data_type@ == data_type@),
        decreases actual.len() - k,
    {
        if str_eq(actual[k].name.as_str(), name) && str_eq(actual[k].data_type.as_str(), data_type) {
            return true;
        }
        k = k + 1;
    }
    false
}

/// Whether a table's columns hold every required column with its type.
pub fn schema_matches(actual: &[ColumnInfo], required: &[(&'static str, &'static str)]) -> (r: bool)
    ensures
        r == spec_schema_matches(actual@, required@),
{
    let mut j: usize = 0;
    while j < required.len()
        invariant
            j <= required@.len(),
            forall|q: int| 0 <= q < j ==> has_column(actual@, (#[trigger] required@[q]).0@, required@[q].1@),
        decreases required.len() - j,
    {
        let (name, data_type) = required[j];
        if !find_column(actual, name, data_type) {
            return false;
        }
        j = j + 1;
    }
    true
}

/// A table found with other columns than its required layout: it has
/// columns (it exists) and they do not match.
pub fn is_incompatible_table(actual: &[ColumnInfo], required: &[(&'static str, &'static str)]) -> (r:
    bool)
    ensures
        r == (actual@.len() > 0 && !spec_schema_matches(actual@, required@)),
{
    actual.len() > 0 && !schema_matches(actual, required)
}

/// The statement that drops a table of a database if it exists.
pub fn drop_table_statement(database: &str, table: &str) -> (s: String)
    ensures
        s@ == "DROP TABLE IF EXISTS "@ + database@ + "."@ + table@,
{
    let mut s = concat3("DROP TABLE IF EXISTS ", database, ".");
    s.append(table);
    s
}

/// The layout that a table must have: its name and its columns with their types.
#[derive(Debug, Clone)]
pub struct TableSchema {
    pub table: &'static str,
    pub columns: Vec<(&'static str, &'static str)>,
}

/// A table layout as plain values.
pub open spec fn schema_view(t: TableSchema) -> (Seq<char>, Seq<(Seq<char>, Seq<char>)>) {
    (t.table@, t.columns@.map_values(|c: (&'static str, &'static str)| (c.0@, c.1@)))
}

/// The required layouts of the TRON tables.
pub open spec fn spec_required_tron_schemas() -> Seq<(Seq<char>, Seq<(Seq<char>, Seq<char>)>)> {
    seq![
        ("transactions"@, seq![
            ("tx_hash"@, "String"@),
            ("block_number"@, "UInt64"@),
            ("timestamp"@, "UInt64"@),
            ("from_address"@, "String"@),
            ("to_address"@, "String"@),
            ("contract_address"@, "String"@),
            ("contract_type"@, "String"@),
            ("amount"@, "UInt128"@),
            ("status"@, "UInt8"@),
        ]),
        ("raw_logs"@, seq![
            ("tx_hash"@, "String"@),
            ("block_number"@, "UInt64"@),
            ("log_index"@, "UInt32"@),
            ("contract_address"@, "String"@),
            ("topics"@, "Array(String)"@),
            ("data"@, "String"@),
            ("removed"@, "UInt8"@),
            ("timestamp"@, "UInt64"@),
        ]),
        ("token_transfers"@, seq![
            ("tx_hash"@, "String"@),
            ("block_number"@, "UInt64"@),
            ("timestamp"@, "UInt64"@),
            ("log_index"@, "UInt32"@),
            ("token_address"@, "String"@),
            ("from_address"@, "String"@),
            ("to_address"@, "String"@),
            ("amount"@, "UInt128"@),
        ]),
        ("address_relationships"@, seq![
            ("relationship_id"@, "String"@),
            ("from_address"@, "String"@),
            ("to_address"@, "String"@),
            ("token_address"@, "String"@),
            ("tx_hash"@, "String"@),
            ("amount"@, "UInt128"@),
            ("transfer_type"@, "String"@),
        ]),
        ("transaction_features"@, seq![
            ("tx_hash"@, "String"@),
            ("timestamp"@, "UInt64"@),
            ("is_swap"@, "UInt8"@),
            ("is_contract_call"@, "UInt8"@),
        ]),
        ("transaction_risk"@, seq![
            ("tx_hash"@, "String"@),
            ("timestamp"@, "UInt64"@),
            ("risk_score"@, "UInt8"@),
            ("risk_level"@, "String"@),
        ]),
        ("contract_metadata"@, seq![
            ("contract_address"@, "String"@),
            ("contract_type"@, "String"@),
            ("creator_address"@, "String"@),
            ("created_block"@, "UInt64"@),
        ]),
        ("address_entity"@, seq![
            ("address"@, "String"@),
            ("entity_id"@, "String"@),
            ("entity_name"@, "String"@),
            ("entity_type"@, "String"@),
            ("confidence"@, "Float32"@),
            ("source"@, "String"@),
        ]),
        ("exchange_entities"@, seq![
            ("entity_id"@, "String"@),
            ("exchange_name"@, "String"@),
            ("exchange_type"@, "String"@),
            ("confidence"@, "Float32"@),
        ]),
        ("exchange_addresses"@, seq![
            ("address"@, "String"@),
            ("entity_id"@, "String"@),
            ("exchange_name"@, "String"@),
            ("address_role"@, "String"@),
            ("confidence"@, "Float32"@),
        ]),
        ("exchange_deposit_addresses"@, seq![
            ("address"@, "String"@),
            ("exchange_name"@, "String"@),
            ("hot_wallet"@, "String"@),
            ("confidence"@, "Float32"@),
        ]),
        ("exchange_clusters"@, seq![
            ("cluster_id"@, "String"@),
            ("exchange_name"@, "String"@),
            ("address"@, "String"@),
            ("role"@, "String"@),
            ("confidence"@, "Float32"@),
        ]),
        ("exchange_flows"@, seq![
            ("tx_hash"@, "String"@),
            ("block_number"@, "UInt64"@),
            ("from_address"@, "String"@),
            ("to_address"@, "String"@),
            ("exchange_name"@, "String"@),
            ("amount"@, "UInt128"@),
        ]),
        ("address_profiles"@, seq![
            ("address"@, "String"@),
            ("total_in_tx"@, "UInt64"@),
            ("total_out_tx"@, "UInt64"@),
            ("total_volume_in"@, "UInt128"@),
            ("risk_score"@, "Float32"@),
        ]),
        ("address_counterparties"@, seq![
            ("address"@, "String"@),
            ("counterparty"@, "String"@),
            ("direction"@, "String"@),
            ("token_address"@, "String"@),
            ("total_volume"@, "UInt128"@),
        ]),
        ("address_token_delta"@, seq![
            ("tx_hash"@, "String"@),
            ("block_number"@, "UInt64"@),
            ("timestamp"@, "UInt64"@),
            ("address"@, "String"@),
            ("token_address"@, "String"@),
            ("delta"@, "Int128"@),
            ("direction"@, "Int8"@),
        ]),
        ("address_token_balance"@, seq![
            ("address"@, "String"@),
            ("token_address"@, "String"@),
            ("balance"@, "Int128"@),
        ]),
        ("wallet_asset_balance_deltas"@, seq![
            ("tx_hash"@, "String"@),
            ("block_number"@, "UInt64"@),
            ("timestamp"@, "UInt64"@),
            ("address"@, "String"@),
            ("asset_type"@, "String"@),
            ("asset_id"@, "String"@),
            ("delta_raw"@, "Int256"@),
            ("direction"@, "Int8"@),
        ]),
        ("wallet_asset_balances"@, seq![
            ("address"@, "String"@),
            ("asset_type"@, "String"@),
            ("asset_id"@, "String"@),
            ("asset_symbol"@, "String"@),
            ("asset_name"@, "String"@),
            ("decimals"@, "UInt8"@),
            ("balance_raw"@, "Int256"@),
            ("balance_decimal"@, "Float64"@),
        ]),
        ("sync_state"@, seq![
            ("chain"@, "String"@),
            ("last_synced_block"@, "UInt64"@),
        ]),
    ]
}

/// The required layouts of the TRON tables: a table found with other
/// columns is dropped and made again.
pub fn required_tron_schemas() -> (r: Vec<TableSchema>)
    ensures
        r@.map_values(|t: TableSchema| schema_view(t)) == spec_required_tron_schemas(),
{
    let r = vec![
        TableSchema {
            table: "transactions",
            columns: vec![
                ("tx_hash", "String"),
                ("block_number", "UInt64"),
                ("timestamp", "UInt64"),
                ("from_address", "String"),
                ("to_address", "String"),
                ("contract_address", "String"),
                ("contract_type", "String"),
                ("amount", "UInt128"),
                ("status", "UInt8"),
            ],
        },
        TableSchema {
            table: "raw_logs",
            columns: vec![
                ("tx_hash", "String"),
                ("block_number", "UInt64"),
                ("log_index", "UInt32"),
                ("contract_address", "String"),
                ("topics", "Array(String)"),
                ("data", "String"),
                ("removed", "UInt8"),
                ("timestamp", "UInt64"),
            ],
        },
        TableSchema {
            table: "token_transfers",
            columns: vec![
                ("tx_hash", "String"),
                ("block_number", "UInt64"),
                ("timestamp", "UInt64"),
                ("log_index", "UInt32"),
                ("token_address", "String"),
                ("from_address", "String"),
                ("to_address", "String"),
                ("amount", "UInt128"),
            ],
        },
        TableSchema {
            table: "address_relationships",
            columns: vec![
                ("relationship_id", "String"),
                ("from_address", "String"),
                ("to_address", "String"),
                ("token_address", "String"),
                ("tx_hash", "String"),
                ("amount", "UInt128"),
                ("transfer_type", "String"),
            ],
        },
        TableSchema {
            table: "transaction_features",
            columns: vec![
                ("tx_hash", "String"),
                ("timestamp", "UInt64"),
                ("is_swap", "UInt8"),
                ("is_contract_call", "UInt8"),
            ],
        },
        TableSchema {
            table: "transaction_risk",
            columns: vec![
                ("tx_hash", "String"),
                ("timestamp", "UInt64"),
                ("risk_score", "UInt8"),
                ("risk_level", "String"),
            ],
        },
        TableSchema {
            table: "contract_metadata",
            columns: vec![
                ("contract_address", "String"),
                ("contract_type", "String"),
                ("creator_address", "String"),
                ("created_block", "UInt64"),
            ],
        },
        TableSchema {
            table: "address_entity",
            columns: vec![
                ("address", "String"),
                ("entity_id", "String"),
                ("entity_name", "String"),
                ("entity_type", "String"),
                ("confidence", "Float32"),
                ("source", "String"),
            ],
        },
        TableSchema {
            table: "exchange_entities",
            columns: vec![
                ("entity_id", "String"),
                ("exchange_name", "String"),
                ("exchange_type", "String"),
                ("confidence", "Float32"),
            ],
        },
        TableSchema {
            table: "exchange_addresses",
            columns: vec![
                ("address", "String"),
                ("entity_id", "String"),
                ("exchange_name", "String"),
                ("address_role", "String"),
                ("confidence", "Float32"),
            ],
        },
        TableSchema {
            table: "exchange_deposit_addresses",
            columns: vec![
                ("address", "String"),
                ("exchange_name", "String"),
                ("hot_wallet", "String"),
                ("confidence", "Float32"),
            ],
        },
        TableSchema {
            table: "exchange_clusters",
            columns: vec![
                ("cluster_id", "String"),
                ("exchange_name", "String"),
                ("address", "String"),
                ("role", "String"),
                ("confidence", "Float32"),
            ],
        },
        TableSchema {
            table: "exchange_flows",
            columns: vec![
                ("tx_hash", "String"),
                ("block_number", "UInt64"),
                ("from_address", "String"),
                ("to_address", "String"),
                ("exchange_name", "String"),
                ("amount", "UInt128"),
            ],
        },
        TableSchema {
            table: "address_profiles",
            columns: vec![
                ("address", "String"),
                ("total_in_tx", "UInt64"),
                ("total_out_tx", "UInt64"),
                ("total_volume_in", "UInt128"),
                ("risk_score", "Float32"),
            ],
        },
        TableSchema {
            table: "address_counterparties",
            columns: vec![
                ("address", "String"),
                ("counterparty", "String"),
                ("direction", "String"),
                ("token_address", "String"),
                ("total_volume", "UInt128"),
            ],
        },
        TableSchema {
            table: "address_token_delta",
            columns: vec![
                ("tx_hash", "String"),
                ("block_number", "UInt64"),
                ("timestamp", "UInt64"),
                ("address", "String"),
                ("token_address", "String"),
                ("delta", "Int128"),
                ("direction", "Int8"),
            ],
        },
        TableSchema {
            table: "address_token_balance",
            columns: vec![
                ("address", "String"),
                ("token_address", "String"),
                ("balance", "Int128"),
            ],
        },
        TableSchema {
            table: "wallet_asset_balance_deltas",
            columns: vec![
                ("tx_hash", "String"),
                ("block_number", "UInt64"),
                ("timestamp", "UInt64"),
                ("address", "String"),
                ("asset_type", "String"),
                ("asset_id", "String"),
                ("delta_raw", "Int256"),
                ("direction", "Int8"),
            ],
        },
        TableSchema {
            table: "wallet_asset_balances",
            columns: vec![
                ("address", "String"),
                ("asset_type", "String"),
                ("asset_id", "String"),
                ("asset_symbol", "String"),
                ("asset_name", "String"),
                ("decimals", "UInt8"),
                ("balance_raw", "Int256"),
                ("balance_decimal", "Float64"),
            ],
        },
        TableSchema {
            table: "sync_state",
            columns: vec![
                ("chain", "String"),
                ("last_synced_block", "UInt64"),
            ],
        },
    ];
    assert(r@.map_values(|t: TableSchema| schema_view(t)) =~~= spec_required_tron_schemas());
    r
}

/// The TRON tables of earlier layouts that are dropped when found.
pub open spec fn spec_obsolete_tron_tables() -> Seq<Seq<char>> {
    seq!["wallet_info"@, "owner_info"@, "contract_calls"@, "address_energy_usage"@, "wallet_state"@]
}

/// The TRON tables of earlier layouts that are dropped when found.
pub fn obsolete_tron_tables() -> (r: Vec<&'static str>)
    ensures
        r@.map_values(|t: &'static str| t@) == spec_obsolete_tron_tables(),
{
    let r = vec!["wallet_info", "owner_info", "contract_calls", "address_energy_usage", "wallet_state"];
    assert(r@.map_values(|t: &'static str| t@) =~= spec_obsolete_tron_tables());
    r
}

} // verus!
