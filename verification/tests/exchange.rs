use tron_aml::exchange::detector::{counterparty_from_attribution, outgoing_receivers, seed_counterparty_from_rows};
use tron_aml::aml::types::SimpleTransfer;
use tron_aml::exchange::cluster_expander::expand_exchange_cluster;
use tron_aml::exchange::detector::{
    build_deposit_attribution, candidate_addresses, current_seed_exchange_counterparty,
    detect_exchange, heuristic_detection, is_exchange_counterparty_role, is_probable_deposit,
    is_probable_hot_wallet, is_probable_sweep_wallet, is_probable_withdraw_wallet, push_detection,
    seed_detection, stats_with_current_transfers, AddressStats, ExchangeCounterparty,
};
use tron_aml::exchange::heuristics::{is_probable_sweeper, is_probable_withdrawal_wallet};
use tron_aml::exchange::seeds::{exchange_seeds, manual_exchange_hot_wallets, unattributed_exchange_hot_wallet};
use tron_aml::exchange::sweeper_detector::detect_sweep_wallets;
use tron_aml::exchange::deposit_detector::detect_exchange_deposits;
use tron_aml::exchange::types::{
    exchange_entity_id, unattributed_exchange_entity_id, unattributed_exchange_name,
    ExchangeWalletRole,
};

fn transfer(token: &str, from: &str, to: &str, amount: u128) -> SimpleTransfer {
    SimpleTransfer {
        token: token.to_string(),
        from: from.to_string(),
        to: to.to_string(),
        amount,
    }
}

fn stats(inbound_txs: u64, outbound_txs: u64, unique_senders: u64, unique_receivers: u64) -> AddressStats {
    AddressStats {
        inbound_txs,
        outbound_txs,
        unique_senders,
        unique_receivers,
        first_seen_block: 1,
        last_seen_block: 2,
    }
}

#[test]
fn classifies_hot_wallet_from_balanced_fan_in_and_fan_out() {
    let stats = stats(100, 100, 60, 60);

    assert!(is_probable_hot_wallet(&stats));
    assert!(!is_probable_sweep_wallet(&stats));
    assert!(!is_probable_withdraw_wallet(&stats));
}

#[test]
fn classifies_sweep_wallet_from_large_inbound_fan_in() {
    let stats = stats(100, 5, 60, 3);

    assert!(is_probable_sweep_wallet(&stats));
    assert!(!is_probable_hot_wallet(&stats));
}

#[test]
fn classifies_withdraw_wallet_from_large_outbound_fan_out() {
    let stats = stats(5, 100, 3, 60);
    assert!(is_probable_withdraw_wallet(&stats));
    assert!(!is_probable_sweep_wallet(&stats));
    assert!(!is_probable_hot_wallet(&stats));
}

#[test]
fn sweep_threshold_compares_against_three_times_the_receivers() {
    assert!(!is_probable_sweep_wallet(&stats(30, 0, 21, 7)));
    assert!(is_probable_sweep_wallet(&stats(30, 0, 22, 7)));
    assert!(!is_probable_sweep_wallet(&stats(30, 0, u64::MAX, u64::MAX / 2)));
}

fn binance_counterparty(tx_count: u64) -> ExchangeCounterparty {
    ExchangeCounterparty {
        address: "TAUN6FwrnwwmaEqYcckffC7wYmbaS6cBiX".to_string(),
        exchange_name: "Binance".to_string(),
        role: ExchangeWalletRole::Hot.to_string(),
        confidence_bps: 10000,
        last_seen_block: 2,
        tx_count,
    }
}

#[test]
fn deposit_wallet_sweeps_to_an_exchange() {
    let counterparty = binance_counterparty(1);
    assert!(is_probable_deposit(&stats(2, 1, 2, 1), &counterparty));
    assert!(!is_probable_deposit(&stats(2, 1, 2, 1), &binance_counterparty(0)));
    assert!(!is_probable_deposit(&stats(2, 26, 2, 1), &counterparty));
    assert!(!is_probable_deposit(&stats(2, 1, 2, 4), &counterparty));
    assert!(!is_probable_deposit(&stats(0, 1, 0, 1), &counterparty));
}

#[test]
fn uses_current_transfer_to_seed_exchange_as_counterparty() {
    let transfers = vec![SimpleTransfer {
        token: "TRX".to_string(),
        from: "deposit_wallet".to_string(),
        to: "TAUN6FwrnwwmaEqYcckffC7wYmbaS6cBiX".to_string(),
        amount: 100,
    }];

    let counterparty = current_seed_exchange_counterparty("deposit_wallet", 10, &transfers)
        .expect("seed exchange counterparty");

    assert_eq!(counterparty.exchange_name, "Binance");
    assert_eq!(counterparty.last_seen_block, 10);
}

#[test]
fn no_seed_counterparty_for_transfers_to_unknown_wallets() {
    let transfers = vec![transfer("TRX", "deposit_wallet", "elsewhere", 1)];
    assert!(current_seed_exchange_counterparty("deposit_wallet", 10, &transfers).is_none());
    let incoming = vec![transfer("TRX", "TAUN6FwrnwwmaEqYcckffC7wYmbaS6cBiX", "deposit_wallet", 1)];
    assert!(current_seed_exchange_counterparty("deposit_wallet", 10, &incoming).is_none());
}

#[test]
fn current_transfers_are_counted_before_clickhouse_flush() {
    let base = AddressStats {
        inbound_txs: 0,
        outbound_txs: 0,
        unique_senders: 0,
        unique_receivers: 0,
        first_seen_block: 0,
        last_seen_block: 0,
    };
    let transfers = vec![
        SimpleTransfer {
            token: "TRX".to_string(),
            from: "customer".to_string(),
            to: "deposit_wallet".to_string(),
            amount: 10,
        },
        SimpleTransfer {
            token: "TRX".to_string(),
            from: "deposit_wallet".to_string(),
            to: "TAUN6FwrnwwmaEqYcckffC7wYmbaS6cBiX".to_string(),
            amount: 10,
        },
    ];

    let stats = stats_with_current_transfers(base, "deposit_wallet", 42, &transfers);

    assert_eq!(stats.inbound_txs, 1);
    assert_eq!(stats.outbound_txs, 1);
    assert_eq!(stats.unique_senders, 1);
    assert_eq!(stats.unique_receivers, 1);
    assert_eq!(stats.first_seen_block, 42);
    assert_eq!(stats.last_seen_block, 42);
}

#[test]
fn current_transfers_keep_earlier_blocks_and_count_distinct_parties() {
    let base = AddressStats {
        inbound_txs: 3,
        outbound_txs: 4,
        unique_senders: 2,
        unique_receivers: 1,
        first_seen_block: 30,
        last_seen_block: 50,
    };
    let transfers = vec![
        transfer("TRX", "x", "w", 1),
        transfer("TRX", "x", "w", 1),
        transfer("TRX", "y", "w", 1),
        transfer("TRX", "z", "q", 1),
    ];
    let s = stats_with_current_transfers(base, "w", 40, &transfers);
    assert_eq!(s.inbound_txs, 6);
    assert_eq!(s.outbound_txs, 4);
    assert_eq!(s.unique_senders, 4);
    assert_eq!(s.unique_receivers, 1);
    assert_eq!(s.first_seen_block, 30);
    assert_eq!(s.last_seen_block, 50);
    let untouched = stats_with_current_transfers(base, "nobody", 99, &transfers);
    assert_eq!(untouched, base);
}

#[test]
fn manual_hot_wallet_seeds_are_exchange_hot_wallets() {
    let seeds = exchange_seeds();
    let seed = seeds
        .iter()
        .find(|(address, _)| address == "TAUN6FwrnwwmaEqYcckffC7wYmbaS6cBiX")
        .map(|(_, attribution)| attribution)
        .expect("manual Binance hot wallet seed");

    assert_eq!(seed.exchange_name, "Binance");
    assert_eq!(seed.role, "HOT");
    assert_eq!(seed.cluster_id.as_deref(), Some("exchange:binance"));
}

#[test]
fn unattributed_manual_seed_keeps_exchange_semantics_without_name() {
    let seed = unattributed_exchange_hot_wallet("TAAAA1111");
    assert_eq!(seed.exchange_name, None);
    assert_eq!(seed.confidence_bps as f32 / 10000.0, 0.95);
}

#[test]
fn seeds_list_both_manual_wallets_with_full_confidence() {
    let wallets = manual_exchange_hot_wallets();
    assert_eq!(wallets.len(), 2);
    let seeds = exchange_seeds();
    assert_eq!(seeds.len(), 2);
    assert_eq!(seeds[1].0, "TU2TmqauSEiRf16CyFgzHV2BVxBejY9iyR");
    assert_eq!(seeds[1].1.exchange_name, "OKX");
    assert_eq!(seeds[1].1.cluster_id.as_deref(), Some("exchange:okx"));
    assert_eq!(seeds[1].1.confidence_bps, 10000);
    assert_eq!(seeds[1].1.detection_source, "manual_hot_wallet_seed");
}

#[test]
fn detect_exchange_finds_only_seeds() {
    let binance = detect_exchange("TAUN6FwrnwwmaEqYcckffC7wYmbaS6cBiX").expect("seed");
    assert_eq!(binance.exchange_name, "Binance");
    assert_eq!(binance.role, "HOT");
    assert!(detect_exchange("TSomethingElse").is_none());
}

#[test]
fn entity_ids_are_lower_case_with_underscores() {
    assert_eq!(exchange_entity_id("Binance"), "exchange:binance");
    assert_eq!(exchange_entity_id("Huobi Global"), "exchange:huobi_global");
    assert_eq!(exchange_entity_id("Gate-io_"), "exchange:gate_io");
    assert_eq!(exchange_entity_id("OK X!!"), "exchange:ok_x");
    assert_eq!(exchange_entity_id(""), "exchange:");
    assert_eq!(tron_aml::exchange::detector::exchange_entity_id("Kraken  "), "exchange:kraken");
}

#[test]
fn unattributed_names_use_the_address_fingerprint() {
    assert_eq!(unattributed_exchange_name("TAAAA1111"), "Unattributed Exchange TAAA1111");
    assert_eq!(unattributed_exchange_entity_id("TAAAA1111"), "exchange:unattributed:taaa1111");
    assert_eq!(unattributed_exchange_name("T-1"), "Unattributed Exchange T1");
}

#[test]
fn counterparty_roles() {
    for role in ["HOT", "SWEEP", "TREASURY", "INTERNAL"] {
        assert!(is_exchange_counterparty_role(role));
    }
    assert!(!is_exchange_counterparty_role("DEPOSIT"));
    assert!(!is_exchange_counterparty_role("hot"));
}

#[test]
fn heuristic_detection_prefers_deposit_then_hot() {
    let counterparty = binance_counterparty(3);
    let (role, d) = heuristic_detection("dw", &stats(2, 1, 2, 1), &Some(counterparty))
        .expect("deposit");
    assert_eq!(role, ExchangeWalletRole::Deposit);
    assert_eq!(d.role, "DEPOSIT");
    assert_eq!(d.exchange_name, "Binance");
    assert_eq!(d.entity_id, "exchange:binance");
    assert_eq!(d.cluster_id, "exchange:binance");
    assert_eq!(d.detection_source, "deposit_sweep_to_exchange_wallet");
    assert_eq!(d.last_seen_block, 2);
    let link = d.deposit.expect("deposit link");
    assert_eq!(link.hot_wallet, "TAUN6FwrnwwmaEqYcckffC7wYmbaS6cBiX");
    assert_eq!(link.detection_method, "swept_to_hot_3");

    let (role, d) = heuristic_detection("hw", &stats(100, 100, 60, 60), &None).expect("hot");
    assert_eq!(role, ExchangeWalletRole::Hot);
    assert_eq!(d.exchange_name, "UnknownExchange");
    assert_eq!(d.entity_id, "exchange:unknownexchange");
    assert_eq!(d.discovered_from, "fan_in_fan_out");
    assert!(d.deposit.is_none());

    let (role, _) = heuristic_detection("sw", &stats(100, 5, 60, 3), &None).expect("sweep");
    assert_eq!(role, ExchangeWalletRole::Sweep);
    let (role, d) = heuristic_detection("ww", &stats(5, 100, 3, 60), &None).expect("withdraw");
    assert_eq!(role, ExchangeWalletRole::Withdraw);
    assert_eq!(d.detection_source, "one_wallet_to_many_withdrawals");
    assert!(heuristic_detection("x", &stats(1, 1, 1, 1), &None).is_none());
}

#[test]
fn detections_are_recorded_once_per_address_and_role() {
    let seed = detect_exchange("TAUN6FwrnwwmaEqYcckffC7wYmbaS6cBiX").expect("seed");
    let mut detections = Vec::new();
    let mut seen = Vec::new();
    let d = seed_detection("TAUN6FwrnwwmaEqYcckffC7wYmbaS6cBiX", &seed, 9);
    assert_eq!(d.cluster_id, "exchange:binance");
    assert_eq!(d.discovered_from, "seed");
    assert_eq!(d.first_seen_block, 9);
    assert!(push_detection(&mut detections, &mut seen, d.clone()));
    assert!(!push_detection(&mut detections, &mut seen, d));
    assert_eq!(detections.len(), 1);
    assert_eq!(seen, vec!["TAUN6FwrnwwmaEqYcckffC7wYmbaS6cBiX:HOT".to_string()]);
}

#[test]
fn candidates_are_the_distinct_parties() {
    let transfers = vec![
        transfer("TRX", "a", "b", 1),
        transfer("TRX", "b", "a", 1),
        transfer("TRX", "c", "a", 1),
    ];
    assert_eq!(candidate_addresses(&transfers), vec!["a".to_string(), "b".to_string(), "c".to_string()]);
}

#[test]
fn deposit_attribution_defaults() {
    let a = build_deposit_attribution("Binance");
    assert_eq!(a.exchange_name, "Binance");
    assert_eq!(a.role, "DEPOSIT");
    assert_eq!(a.confidence_bps, 6500);
    assert_eq!(a.detection_source, "deposit_heuristic");
    assert!(a.cluster_id.is_none());
}

#[test]
fn sweepers_and_withdrawal_wallets_from_transfer_counts() {
    let into: Vec<SimpleTransfer> = (0..5).map(|i| transfer("TRX", &format!("d{}", i), "sweeper", 1)).collect();
    assert!(is_probable_sweeper(&into));
    assert!(!is_probable_sweeper(&into[..4]));
    let out: Vec<SimpleTransfer> = (0..5).map(|i| transfer("TRX", "hot", &format!("u{}", i), 1)).collect();
    assert!(is_probable_withdrawal_wallet(&out));
    assert!(!is_probable_withdrawal_wallet(&into));
}

#[test]
fn sweep_wallets_receive_ten_or_more_transfers() {
    let into: Vec<SimpleTransfer> = (0..10).map(|i| transfer("TRX", &format!("d{}", i), "sweeper", 1)).collect();
    assert_eq!(detect_sweep_wallets(&into), vec!["sweeper".to_string()]);
    assert!(detect_sweep_wallets(&into[..9]).is_empty());
}

#[test]
fn wallets_receiving_five_transfers_are_attributed_to_an_unknown_exchange() {
    let mut transfers: Vec<SimpleTransfer> = (0..5).map(|i| transfer("TRX", &format!("d{}", i), "target", 1)).collect();
    transfers.push(transfer("TRX", "lonely", "nobody", 1));
    let deposits = detect_exchange_deposits(&transfers);
    assert_eq!(deposits, vec![("target".to_string(), "UnknownExchange".to_string())]);
    assert!(detect_exchange_deposits(&transfers[..4]).is_empty());
}

#[test]
fn cluster_expansion_finds_sweepers_and_their_deposits() {
    let mut transfers: Vec<SimpleTransfer> = (0..10).map(|i| transfer("TRX", &format!("d{}", i), "sweeper", 1)).collect();
    transfers.push(transfer("TRX", "sweeper", "seed", 10));
    let result = expand_exchange_cluster("seed", &transfers);
    assert_eq!(result.cluster_id, "cluster:seed");
    assert_eq!(result.sweeper_wallets, vec!["sweeper".to_string()]);
    assert_eq!(result.deposit_wallets.len(), 10);
    assert!(result.discovered_wallets.contains(&"sweeper".to_string()));
    assert_eq!(result.discovered_wallets.len(), 11);
}

#[test]
fn every_seed_is_found_with_its_listed_attribution() {
    for (address, listed) in exchange_seeds() {
        let found = detect_exchange(&address).expect("seed address");
        assert_eq!(found.exchange_name, listed.exchange_name);
        assert_eq!(found.role, listed.role);
        assert_eq!(found.confidence_bps, listed.confidence_bps);
        assert_eq!(found.detection_source, listed.detection_source);
        assert_eq!(found.cluster_id, listed.cluster_id);
    }
}

#[test]
fn classifies_deposit_wallet_when_it_sweeps_to_exchange() {
    let stats = stats(2, 1, 2, 1);
    let counterparty = ExchangeCounterparty {
        address: "TAUN6FwrnwwmaEqYcckffC7wYmbaS6cBiX".to_string(),
        exchange_name: "Binance".to_string(),
        role: ExchangeWalletRole::Hot.to_string(),
        confidence_bps: 10000,
        last_seen_block: 2,
        tx_count: 1,
    };

    assert!(is_probable_deposit(&stats, &counterparty));
}

#[test]
fn recent_rows_give_the_first_seed_as_counterparty() {
    let rows = vec![
        ("elsewhere".to_string(), 1, 5, 9),
        ("TU2TmqauSEiRf16CyFgzHV2BVxBejY9iyR".to_string(), 2, 7, 3),
        ("TAUN6FwrnwwmaEqYcckffC7wYmbaS6cBiX".to_string(), 1, 8, 4),
    ];
    let c = seed_counterparty_from_rows(&rows).expect("seed row");
    assert_eq!(c.address, "TU2TmqauSEiRf16CyFgzHV2BVxBejY9iyR");
    assert_eq!(c.exchange_name, "OKX");
    assert_eq!(c.role, "HOT");
    assert_eq!(c.confidence_bps, 10000);
    assert_eq!((c.last_seen_block, c.tx_count), (7, 3));
    assert!(seed_counterparty_from_rows(&rows[..1]).is_none());
}

#[test]
fn stored_attributions_are_counterparties_only_in_exchange_roles() {
    let hot = tron_aml::exchange::types::ExchangeAttribution {
        exchange_name: "Kraken".to_string(),
        role: "SWEEP".to_string(),
        confidence_bps: 8000,
        detection_source: "x".to_string(),
        cluster_id: None,
    };
    let c = counterparty_from_attribution("w", &hot, 12).expect("sweep is a counterparty role");
    assert_eq!((c.address.as_str(), c.exchange_name.as_str(), c.role.as_str()), ("w", "Kraken", "SWEEP"));
    assert_eq!((c.confidence_bps, c.last_seen_block, c.tx_count), (8000, 12, 1));
    let deposit = build_deposit_attribution("Kraken");
    assert!(counterparty_from_attribution("w", &deposit, 12).is_none());
    let transfers = vec![transfer("TRX", "a", "x", 1), transfer("TRX", "b", "y", 1), transfer("TRX", "a", "z", 1)];
    assert_eq!(outgoing_receivers("a", &transfers), vec!["x".to_string(), "z".to_string()]);
}
