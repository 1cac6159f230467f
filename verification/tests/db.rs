use tron_aml::db::{
    drop_table_statement, executable_statements, has_executable_sql, is_incompatible_table,
    obsolete_tron_tables, required_tron_schemas, schema_matches, ColumnInfo,
};

fn column(name: &str, data_type: &str) -> ColumnInfo {
    ColumnInfo { name: name.to_string(), data_type: data_type.to_string() }
}

#[test]
fn comments_and_blank_lines_are_not_sql() {
    assert!(!has_executable_sql(""));
    assert!(!has_executable_sql("   \n\t\n"));
    assert!(!has_executable_sql("-- a comment\n   -- another"));
    assert!(has_executable_sql("-- a comment\nSELECT 1"));
    assert!(has_executable_sql("  CREATE TABLE t (x UInt8)  "));
}

#[test]
fn scripts_split_into_trimmed_statements() {
    let sql = "CREATE TABLE a (x UInt8);\n-- only a comment\n;\n  INSERT INTO a VALUES (1)  ;  ";
    assert_eq!(
        executable_statements(sql),
        vec!["CREATE TABLE a (x UInt8)".to_string(), "INSERT INTO a VALUES (1)".to_string()]
    );
    assert!(executable_statements("").is_empty());
    assert_eq!(executable_statements("SELECT 1"), vec!["SELECT 1".to_string()]);
}

#[test]
fn schemas_match_when_every_required_column_is_there() {
    let required = [("tx_hash", "String"), ("block_number", "UInt64")];
    let actual = vec![column("block_number", "UInt64"), column("tx_hash", "String"), column("extra", "UInt8")];
    assert!(schema_matches(&actual, &required));
    let wrong_type = vec![column("block_number", "UInt32"), column("tx_hash", "String")];
    assert!(!schema_matches(&wrong_type, &required));
    assert!(is_incompatible_table(&wrong_type, &required));
    assert!(!is_incompatible_table(&[], &required));
    assert!(!is_incompatible_table(&actual, &required));
}

#[test]
fn required_schemas_cover_the_tron_tables() {
    let schemas = required_tron_schemas();
    assert_eq!(schemas.len(), 20);
    assert_eq!(schemas[0].table, "transactions");
    assert_eq!(schemas[0].columns[0], ("tx_hash", "String"));
    assert_eq!(schemas[19].table, "sync_state");
    assert_eq!(schemas[19].columns, vec![("chain", "String"), ("last_synced_block", "UInt64")]);
    let tables: Vec<&str> = schemas.iter().map(|s| s.table).collect();
    assert!(tables.contains(&"wallet_asset_balance_deltas"));
}

#[test]
fn obsolete_tables() {
    assert_eq!(
        obsolete_tron_tables(),
        vec!["wallet_info", "owner_info", "contract_calls", "address_energy_usage", "wallet_state"]
    );
}

#[test]
fn drop_statements_name_the_database() {
    assert_eq!(drop_table_statement("tron_db", "wallet_info"), "DROP TABLE IF EXISTS tron_db.wallet_info");
}
