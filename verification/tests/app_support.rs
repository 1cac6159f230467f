use tron_aml::address_intelligence::build_address_profiles;
use tron_aml::aml::types::SimpleTransfer;
use tron_aml::cli::{optional_arg, parse_unsigned, IntParseError};
use tron_aml::config::{AppConfig, AppMode, SyncMode};
use tron_aml::handlers::{
    build_data_quality, graph_request_params, investigation_graph_params, WalletGraphQuery,
    WalletInvestigationQuery,
};
use tron_aml::models::{BatchInsert, ContractMetadataRow, TransactionRow};
use tron_aml::progress::{detect_wallet_type, exchange_by_tag_or_activity, exchange_person_id, generate_person_id};

fn transfer(token: &str, from: &str, to: &str, amount: u128) -> SimpleTransfer {
    SimpleTransfer { token: token.to_string(), from: from.to_string(), to: to.to_string(), amount }
}

#[test]
fn default_configuration_is_a_tron_backfill() {
    let c = AppConfig::from_env();
    assert_eq!(c.mode, AppMode::Tron);
    assert_eq!(c.sync_mode, SyncMode::Backfill);
    assert_eq!(c.clickhouse_db_tron, "tron_db");
    assert_eq!(c.tron_rpc_url.as_deref(), Some("https://api.trongrid.io"));
    assert_eq!(c.tron_start_block, 55100000);
    assert_eq!(c.rpc_timeout_seconds, 120);
    assert_eq!(c.neo4j_uri, "localhost:7687");
}

#[test]
fn numeric_arguments_parse_like_str_parse() {
    let args = vec!["bin".to_string(), "12".to_string(), "+7".to_string(), "".to_string(), "-1".to_string(), "300".to_string(), "9x".to_string()];
    assert_eq!(optional_arg(&args, 1, 3, u8::MAX as u64), Ok(12));
    assert_eq!(optional_arg(&args, 2, 3, u8::MAX as u64), Ok(7));
    assert_eq!(optional_arg(&args, 3, 3, u8::MAX as u64), Err(IntParseError::Empty));
    assert_eq!(optional_arg(&args, 4, 3, u8::MAX as u64), Err(IntParseError::InvalidDigit));
    assert_eq!(optional_arg(&args, 5, 3, u8::MAX as u64), Err(IntParseError::PosOverflow));
    assert_eq!(optional_arg(&args, 5, 3, u64::MAX), Ok(300));
    assert_eq!(optional_arg(&args, 6, 3, u64::MAX), Err(IntParseError::InvalidDigit));
    assert_eq!(optional_arg(&args, 9, 500, u64::MAX), Ok(500));
    assert_eq!(parse_unsigned("+", u64::MAX), Err(IntParseError::InvalidDigit));
    assert_eq!(parse_unsigned("18446744073709551615", u64::MAX), Ok(u64::MAX));
    assert_eq!(parse_unsigned("18446744073709551616", u64::MAX), Err(IntParseError::PosOverflow));
    assert_eq!(parse_unsigned("99999999999999999999x", u64::MAX), Err(IntParseError::PosOverflow));
    for s in ["0", "00012", "+0", "255", "256", "abc", "1 2"] {
        let expected = s.parse::<u8>().map(|v| v as u64).map_err(|e| match e.kind() {
            std::num::IntErrorKind::Empty => IntParseError::Empty,
            std::num::IntErrorKind::InvalidDigit => IntParseError::InvalidDigit,
            _ => IntParseError::PosOverflow,
        });
        assert_eq!(parse_unsigned(s, u8::MAX as u64), expected, "{}", s);
    }
}

#[test]
fn graph_parameters_default_and_clamp() {
    assert_eq!(graph_request_params(&WalletGraphQuery { depth: None, limit: None }), (3, 500));
    assert_eq!(graph_request_params(&WalletGraphQuery { depth: Some(9), limit: Some(0) }), (9, 0));
    let q = WalletInvestigationQuery { depth: Some(9), limit: Some(0), window_days: None, top_counterparties: None, max_events: None };
    assert_eq!(investigation_graph_params(&q), (6, 1));
    let q = WalletInvestigationQuery { depth: None, limit: None, window_days: None, top_counterparties: None, max_events: None };
    assert_eq!(investigation_graph_params(&q), (3, 500));
}

#[test]
fn data_quality_warnings() {
    let q = build_data_quality(10, 500, 6, 500, 1000, true, 0);
    assert_eq!(
        q.warnings,
        vec![
            "fingerprint_event_sample_truncated".to_string(),
            "no_observed_flow_history".to_string(),
            "graph_edge_limit_reached".to_string(),
            "graph_depth_capped".to_string(),
        ]
    );
    assert_eq!(q.graph_nodes, 10);
    let q = build_data_quality(3, 2, 3, 500, 1000, false, 2);
    assert_eq!(q.warnings, vec!["low_observed_flow_volume".to_string()]);
    let q = build_data_quality(3, 2, 3, 500, 1000, false, 3);
    assert!(q.warnings.is_empty());
}

#[test]
fn row_tables() {
    assert_eq!(<TransactionRow as BatchInsert>::TABLE, "transactions");
    assert_eq!(<ContractMetadataRow as BatchInsert>::TABLE, "contract_metadata");
}

#[test]
fn wallet_types_and_person_ids() {
    assert!(exchange_by_tag_or_activity(1, 0));
    assert!(exchange_by_tag_or_activity(0, 10_001));
    assert!(!exchange_by_tag_or_activity(0, 10_000));
    assert_eq!(detect_wallet_type(0, 0, 501, "eoa".to_string()), "exchange");
    assert_eq!(detect_wallet_type(0, 0, 500, "eoa".to_string()), "eoa");
    assert_eq!(exchange_person_id("exchange", "TAbc"), Some("EXCHANGE_TAbc".to_string()));
    assert_eq!(exchange_person_id("eoa", "TAbc"), None);
    let id = generate_person_id();
    assert_eq!(id.chars().count(), 10);
    assert!(id.chars().all(|c| c == '_' || c == '-' || c.is_ascii_alphanumeric()));
}

#[test]
fn profiles_count_each_transfer_once_each_way() {
    let transfers = vec![
        transfer("TRX", "a", "b", 10),
        transfer("USDT", "a", "b", 5),
        transfer("TRX", "b", "c", 3),
        transfer("TRX", "c", "c", 1),
    ];
    let profiles = build_address_profiles(&transfers);
    assert_eq!(profiles.len(), 3);
    let total_in: u64 = profiles.iter().map(|p| p.total_in_tx).sum();
    let total_out: u64 = profiles.iter().map(|p| p.total_out_tx).sum();
    assert_eq!(total_in, 4);
    assert_eq!(total_out, 4);
    let a = &profiles[0];
    assert_eq!(a.address, "a");
    assert_eq!((a.total_out_tx, a.total_volume_out, a.unique_receivers), (2, 15, 1));
    assert_eq!(a.interacted_tokens, vec!["TRX".to_string(), "USDT".to_string()]);
    let c = profiles.iter().find(|p| p.address == "c").expect("c");
    assert_eq!((c.total_in_tx, c.total_out_tx, c.unique_senders, c.unique_receivers), (2, 1, 2, 1));
    assert_eq!(c.total_volume_in, 4);
    assert!(!c.probable_deposit_wallet);
}

#[test]
fn deposit_wallet_profile() {
    let transfers: Vec<SimpleTransfer> = (0..10).map(|i| transfer("TRX", &format!("u{}", i), "d", 1)).collect();
    let profiles = build_address_profiles(&transfers);
    let d = profiles.iter().find(|p| p.address == "d").expect("d");
    assert!(d.probable_deposit_wallet);
    assert!(!d.probable_sweeper);
    assert!(!d.probable_exchange);
}
