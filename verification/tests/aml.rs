use tron_aml::aml::types::{AddressFlows, FlowMap, TokenDelta};
use tron_aml::aml::bridge_detector::detect_bridges;
use tron_aml::aml::exposure::{compute_exposure_score, unique_counterparties};
use tron_aml::aml::flow_engine::{compute_net_flows, flatten_flows};
use tron_aml::aml::heuristics::{has_high_fanout, is_peel_chain, is_smurfing_pattern};
use tron_aml::aml::liquidity_detector::detect_liquidity_events;
use tron_aml::aml::mint_burn_detector::detect_mints_and_burns;
use tron_aml::aml::swap_detector::detect_swaps;
use tron_aml::aml::types::{AmlEvent, SimpleTransfer, ZERO_ADDRESS};

fn transfer(token: &str, from: &str, to: &str, amount: u128) -> SimpleTransfer {
    SimpleTransfer {
        token: token.to_string(),
        from: from.to_string(),
        to: to.to_string(),
        amount,
    }
}

#[test]
fn detects_liquidity_add() {
    let transfers = vec![
        transfer("TRX", "wallet", "pool", 100),
        transfer("USDT", "wallet", "pool", 50),
        transfer("LP", "pool", "wallet", 10),
    ];

    let events = detect_liquidity_events(&transfers, Some("wallet"));

    assert!(matches!(events[0], AmlEvent::LiquidityAdd { .. }));
}

#[test]
fn detects_liquidity_remove() {
    let transfers = vec![
        transfer("LP", "wallet", "pool", 10),
        transfer("TRX", "pool", "wallet", 100),
        transfer("USDT", "pool", "wallet", 50),
    ];

    let events = detect_liquidity_events(&transfers, Some("wallet"));

    assert!(matches!(events[0], AmlEvent::LiquidityRemove { .. }));
}

#[test]
fn liquidity_add_names_the_lp_token_and_the_tokens_sent() {
    let transfers = vec![
        transfer("TRX", "wallet", "pool", 100),
        transfer("USDT", "wallet", "pool", 50),
        transfer("LP", "pool", "wallet", 10),
    ];
    let events = detect_liquidity_events(&transfers, Some("wallet"));
    assert_eq!(events.len(), 1);
    match &events[0] {
        AmlEvent::LiquidityAdd { user, lp_token, sent_tokens } => {
            assert_eq!(user, "wallet");
            assert_eq!(lp_token, "LP");
            let mut sent = sent_tokens.clone();
            sent.sort();
            assert_eq!(sent, vec!["TRX".to_string(), "USDT".to_string()]);
        }
        other => panic!("unexpected event {:?}", other),
    }
}

#[test]
fn liquidity_detection_ignores_other_actors() {
    let transfers = vec![
        transfer("TRX", "wallet", "pool", 100),
        transfer("USDT", "wallet", "pool", 50),
        transfer("LP", "pool", "wallet", 10),
    ];
    let events = detect_liquidity_events(&transfers, Some("someone_else"));
    assert!(events.is_empty());
}

#[test]
fn a_single_token_out_is_no_liquidity_event() {
    let transfers = vec![
        transfer("TRX", "wallet", "pool", 100),
        transfer("LP", "pool", "wallet", 10),
    ];
    assert!(detect_liquidity_events(&transfers, None).is_empty());
}

#[test]
fn net_flows_balance_per_token() {
    let transfers = vec![
        transfer("TRX", "a", "b", 100),
        transfer("TRX", "b", "c", 30),
        transfer("USDT", "c", "a", 7),
    ];
    let flows = flatten_flows(&compute_net_flows(&transfers));
    let delta = |addr: &str, token: &str| -> i128 {
        flows
            .iter()
            .filter(|f| f.address == addr && f.token == token)
            .map(|f| f.delta)
            .sum()
    };
    assert_eq!(delta("a", "TRX"), -100);
    assert_eq!(delta("b", "TRX"), 70);
    assert_eq!(delta("c", "TRX"), 30);
    assert_eq!(delta("c", "USDT"), -7);
    assert_eq!(delta("a", "USDT"), 7);
    for token in ["TRX", "USDT"] {
        let total: i128 = flows.iter().filter(|f| f.token == token).map(|f| f.delta).sum();
        assert_eq!(total, 0);
    }
}

#[test]
fn a_self_transfer_nets_to_zero() {
    let transfers = vec![transfer("TRX", "a", "a", 5)];
    let flows = flatten_flows(&compute_net_flows(&transfers));
    assert_eq!(flows.len(), 1);
    assert_eq!(flows[0].delta, 0);
}

#[test]
fn detects_a_swap_of_one_token_for_another() {
    let transfers = vec![
        transfer("TRX", "user", "router", 100),
        transfer("USDT", "router", "user", 90),
    ];
    let events = detect_swaps(&transfers);
    assert!(events.iter().any(|e| matches!(e,
        AmlEvent::Swap { user, token_in, token_out }
            if user == "user" && token_in == "TRX" && token_out == "USDT")));
}

#[test]
fn no_swap_without_a_token_back() {
    let transfers = vec![transfer("TRX", "user", "router", 100)];
    assert!(detect_swaps(&transfers).is_empty());
}

#[test]
fn bridges_need_the_protocol_hint() {
    let transfers = vec![transfer("USDT", ZERO_ADDRESS, "user", 10)];
    assert!(detect_bridges(&transfers, false).is_empty());
    let events = detect_bridges(&transfers, true);
    assert!(events.iter().any(|e| matches!(e,
        AmlEvent::BridgeIn { user, token } if user == "user" && token == "USDT")));
}

#[test]
fn bridge_out_to_the_zero_address() {
    let transfers = vec![transfer("USDT", "user", ZERO_ADDRESS, 10)];
    let events = detect_bridges(&transfers, true);
    assert!(events.iter().any(|e| matches!(e,
        AmlEvent::BridgeOut { user, token } if user == "user" && token == "USDT")));
}

#[test]
fn mints_and_burns_follow_the_zero_address() {
    let transfers = vec![
        transfer("USDT", ZERO_ADDRESS, "alice", 10),
        transfer("USDT", "bob", ZERO_ADDRESS, 3),
        transfer("USDT", "alice", "bob", 1),
    ];
    let events = detect_mints_and_burns(&transfers);
    assert_eq!(events.len(), 2);
    assert!(matches!(&events[0], AmlEvent::Mint { user, token } if user == "alice" && token == "USDT"));
    assert!(matches!(&events[1], AmlEvent::Burn { user, token } if user == "bob" && token == "USDT"));
}

#[test]
fn exposure_score_adds_its_signals_and_caps_at_100() {
    assert_eq!(compute_exposure_score(0, false, false, false), 40);
    assert_eq!(compute_exposure_score(3, false, false, false), 20);
    assert_eq!(compute_exposure_score(5, false, false, false), 0);
    assert_eq!(compute_exposure_score(5, true, false, false), 50);
    assert_eq!(compute_exposure_score(5, false, true, false), 40);
    assert_eq!(compute_exposure_score(5, false, false, true), 20);
    assert_eq!(compute_exposure_score(4, false, true, true), 80);
    assert_eq!(compute_exposure_score(0, true, true, true), 100);
}

#[test]
fn unique_counterparties_counts_distinct_addresses() {
    let addresses = vec!["a".to_string(), "b".to_string(), "a".to_string()];
    assert_eq!(unique_counterparties(&addresses), 2);
    assert_eq!(unique_counterparties(&[]), 0);
}

#[test]
fn peel_chains_need_three_transfers_to_three_receivers() {
    let two = vec![transfer("TRX", "a", "b", 10), transfer("TRX", "b", "c", 9)];
    assert!(!is_peel_chain(&two));
    let three = vec![
        transfer("TRX", "a", "b", 10),
        transfer("TRX", "b", "c", 9),
        transfer("TRX", "c", "d", 8),
    ];
    assert!(is_peel_chain(&three));
    let back = vec![
        transfer("TRX", "a", "b", 10),
        transfer("TRX", "b", "a", 9),
        transfer("TRX", "a", "b", 8),
    ];
    assert!(!is_peel_chain(&back));
}

#[test]
fn smurfing_is_five_or_more_small_transfers() {
    let small: Vec<SimpleTransfer> = (0..5).map(|i| transfer("TRX", "a", &format!("r{}", i), 999_999)).collect();
    assert!(is_smurfing_pattern(&small));
    assert!(!is_smurfing_pattern(&small[..4]));
    let mut one_large = small.clone();
    one_large[2].amount = 1_000_000;
    assert!(!is_smurfing_pattern(&one_large));
}

#[test]
fn high_fanout_is_ten_distinct_receivers() {
    let nine: Vec<SimpleTransfer> = (0..9).map(|i| transfer("TRX", "hub", &format!("r{}", i), 1)).collect();
    assert!(!has_high_fanout(&nine));
    let mut ten = nine.clone();
    ten.push(transfer("TRX", "hub", "r9", 1));
    assert!(has_high_fanout(&ten));
    ten.push(transfer("TRX", "hub", "r9", 1));
    assert!(has_high_fanout(&ten));
}

#[test]
fn one_actors_liquidity_events_are_its_share_of_all() {
    let transfers = vec![
        transfer("TRX", "wallet", "pool", 100),
        transfer("USDT", "wallet", "pool", 50),
        transfer("LP", "pool", "wallet", 10),
        transfer("LP2", "other", "pool", 3),
        transfer("TRX", "pool", "other", 7),
        transfer("USDT", "pool", "other", 1),
    ];
    let all = detect_liquidity_events(&transfers, None);
    for actor in ["wallet", "other", "pool", "nobody"] {
        let mine = detect_liquidity_events(&transfers, Some(actor));
        let share: Vec<&AmlEvent> = all
            .iter()
            .filter(|e| match e {
                AmlEvent::LiquidityAdd { user, .. } | AmlEvent::LiquidityRemove { user, .. } => user == actor,
                _ => false,
            })
            .collect();
        assert_eq!(mine.len(), share.len(), "{}", actor);
        for (a, b) in mine.iter().zip(share) {
            assert_eq!(std::mem::discriminant(a), std::mem::discriminant(b));
        }
    }
    assert_eq!(detect_liquidity_events(&transfers, Some("wallet")).len(), 1);
    assert_eq!(detect_liquidity_events(&transfers, Some("other")).len(), 1);
}

#[test]
fn flattening_skips_addresses_without_tokens() {
    let map = FlowMap {
        entries: vec![
            AddressFlows { address: "a".to_string(), tokens: vec![] },
            AddressFlows {
                address: "b".to_string(),
                tokens: vec![
                    TokenDelta { token: "TRX".to_string(), delta: -3 },
                    TokenDelta { token: "USDT".to_string(), delta: 4 },
                ],
            },
        ],
    };
    let rows = flatten_flows(&map);
    assert_eq!(rows.len(), 2);
    assert_eq!((rows[0].address.as_str(), rows[0].token.as_str(), rows[0].delta), ("b", "TRX", -3));
    assert_eq!((rows[1].address.as_str(), rows[1].token.as_str(), rows[1].delta), ("b", "USDT", 4));
}
