use tron_aml::aml::types::SimpleTransfer;
use tron_aml::counterparty::build_counterparty_relations;

fn transfer(token: &str, from: &str, to: &str, amount: u128) -> SimpleTransfer {
    SimpleTransfer {
        token: token.to_string(),
        from: from.to_string(),
        to: to.to_string(),
        amount,
    }
}

#[test]
fn creates_inbound_and_outbound_counterparty_rows_per_token() {
    let transfers = vec![SimpleTransfer {
        token: "TRX".to_string(),
        from: "from".to_string(),
        to: "to".to_string(),
        amount: 10,
    }];

    let rows = build_counterparty_relations(&transfers, 100);

    assert_eq!(rows.len(), 2);
    assert!(rows.iter().any(|row| {
        row.address == "from"
            && row.counterparty == "to"
            && row.direction == "out"
            && row.token_address == "TRX"
            && row.total_volume == 10
    }));
    assert!(rows.iter().any(|row| {
        row.address == "to"
            && row.counterparty == "from"
            && row.direction == "in"
            && row.token_address == "TRX"
            && row.total_volume == 10
    }));
}

#[test]
fn repeated_transfers_aggregate_into_one_row_per_direction() {
    let transfers = vec![
        transfer("TRX", "a", "b", 10),
        transfer("TRX", "a", "b", 5),
        transfer("USDT", "a", "b", 1),
    ];
    let rows = build_counterparty_relations(&transfers, 7);
    assert_eq!(rows.len(), 4);
    let out_trx = rows
        .iter()
        .find(|r| r.address == "a" && r.direction == "out" && r.token_address == "TRX")
        .expect("outbound TRX row");
    assert_eq!(out_trx.total_txs, 2);
    assert_eq!(out_trx.total_volume, 15);
    assert_eq!(out_trx.first_seen, 7);
    assert_eq!(out_trx.last_seen, 7);
    let in_trx = rows
        .iter()
        .find(|r| r.address == "b" && r.direction == "in" && r.token_address == "TRX")
        .expect("inbound TRX row");
    assert_eq!(in_trx.counterparty, "a");
    assert_eq!(in_trx.total_txs, out_trx.total_txs);
    assert_eq!(in_trx.total_volume, out_trx.total_volume);
}

#[test]
fn no_transfers_no_rows() {
    assert!(build_counterparty_relations(&[], 1).is_empty());
}
