use provenance::model::{
    Amount, ConfirmationInfo, DecodedInput, DecodedOutput, DecodedTransaction, OutputReference,
    ProvenanceError,
};
use provenance::record::{build_record, total_output_value};
use provenance::report::render_report;
use provenance::resolver::{first_input_reference, resolve_funding};

fn out(sats: u64, address: Option<&str>) -> DecodedOutput {
    DecodedOutput {
        value: Amount { sats },
        address: address.map(|a| a.to_string()),
    }
}

fn spending(txid: &str, vout: usize) -> DecodedInput {
    DecodedInput {
        spends: OutputReference {
            txid: txid.to_string(),
            vout,
        },
    }
}

/// The funding transaction paid 20.0001 to the miner; the target
/// transaction pays 20.0 to the trader and returns 0.00005 as change.
fn payment_scenario() -> (DecodedTransaction, DecodedTransaction) {
    let prev_tx = DecodedTransaction {
        id: "f00d".to_string(),
        inputs: vec![spending("beef", 0)],
        outputs: vec![out(2_000_010_000, Some("miner_funds"))],
    };
    let tx = DecodedTransaction {
        id: "abcd".to_string(),
        inputs: vec![spending("f00d", 0)],
        outputs: vec![
            out(2_000_000_000, Some("trader")),
            out(5_000, Some("miner_change")),
        ],
    };
    (prev_tx, tx)
}

#[test]
fn resolves_payment_with_change() {
    let (prev_tx, tx) = payment_scenario();
    let confirmation = Some(ConfirmationInfo {
        block_hash: "feedbead".to_string(),
        block_height: 350,
    });
    let owned = vec![false, true];
    let record = build_record(&tx, &prev_tx, &confirmation, &"trader".to_string(), &owned)
        .expect("a confirmed, resolvable transaction");
    assert_eq!(record.transaction_id, "abcd");
    assert_eq!(record.funding_address, "miner_funds");
    assert_eq!(record.funding_amount, Amount { sats: 2_000_010_000 });
    assert_eq!(record.recipient_address, "trader");
    assert_eq!(record.recipient_amount, Amount { sats: 2_000_000_000 });
    assert_eq!(record.change_address, "miner_change");
    assert_eq!(record.change_amount, Amount { sats: 5_000 });
    assert_eq!(record.fee, Amount { sats: 5_000 });
    assert_eq!(record.block_height, 350);
    assert_eq!(record.block_hash, "feedbead");
    // value conservation: funding == recipient + change + fee
    assert_eq!(
        record.funding_amount.sats,
        record.recipient_amount.sats + record.change_amount.sats + record.fee.sats
    );
}

#[test]
fn renders_ten_fixed_lines() {
    let (prev_tx, tx) = payment_scenario();
    let confirmation = Some(ConfirmationInfo {
        block_hash: "feedbead".to_string(),
        block_height: 350,
    });
    let owned = vec![false, true];
    let record = build_record(&tx, &prev_tx, &confirmation, &"trader".to_string(), &owned)
        .expect("a confirmed, resolvable transaction");
    let text = render_report(&record);
    assert_eq!(
        text,
        "abcd\nminer_funds\n20.00010000\ntrader\n20.00000000\nminer_change\n0.00005000\n0.00005000\n350\nfeedbead\n"
    );
}

#[test]
fn fully_consumed_funding_has_no_change_and_no_fee() {
    let prev_tx = DecodedTransaction {
        id: "f00d".to_string(),
        inputs: vec![spending("beef", 0)],
        outputs: vec![out(5_000_000_000, Some("miner_funds"))],
    };
    let tx = DecodedTransaction {
        id: "abcd".to_string(),
        inputs: vec![spending("f00d", 0)],
        outputs: vec![out(5_000_000_000, Some("trader"))],
    };
    let confirmation = Some(ConfirmationInfo {
        block_hash: "feedbead".to_string(),
        block_height: 351,
    });
    let owned = vec![false];
    let record = build_record(&tx, &prev_tx, &confirmation, &"trader".to_string(), &owned)
        .expect("a confirmed, resolvable transaction");
    assert_eq!(record.recipient_amount, Amount { sats: 5_000_000_000 });
    assert_eq!(record.fee, Amount { sats: 0 });
    assert_eq!(record.change_address, "");
    assert_eq!(record.change_amount, Amount { sats: 0 });
    let text = render_report(&record);
    assert_eq!(
        text,
        "abcd\nminer_funds\n50.00000000\ntrader\n50.00000000\n\n0.00000000\n0.00000000\n351\nfeedbead\n"
    );
}

#[test]
fn missing_referenced_output_is_not_found() {
    let (prev_tx, mut tx) = payment_scenario();
    // reference an output index the funding transaction does not have
    tx.inputs = vec![spending("f00d", 3)];
    let confirmation = Some(ConfirmationInfo {
        block_hash: "feedbead".to_string(),
        block_height: 350,
    });
    let owned = vec![false, true];
    let result = build_record(&tx, &prev_tx, &confirmation, &"trader".to_string(), &owned);
    assert_eq!(result, Err(ProvenanceError::NotFound));
}

#[test]
fn unconfirmed_transaction_is_rejected() {
    let (prev_tx, tx) = payment_scenario();
    let owned = vec![false, true];
    let result = build_record(&tx, &prev_tx, &None, &"trader".to_string(), &owned);
    assert_eq!(result, Err(ProvenanceError::Unconfirmed));
}

#[test]
fn funding_output_without_address_reports_empty() {
    let prev_tx = DecodedTransaction {
        id: "f00d".to_string(),
        inputs: vec![spending("beef", 0)],
        outputs: vec![out(1_000, None)],
    };
    let reference = OutputReference {
        txid: "f00d".to_string(),
        vout: 0,
    };
    let funding = resolve_funding(&prev_tx, &reference).expect("the output exists");
    assert_eq!(funding.address, "");
    assert_eq!(funding.amount, Amount { sats: 1_000 });
}

#[test]
fn first_input_carries_the_funding_reference() {
    let (_, tx) = payment_scenario();
    let reference = first_input_reference(&tx);
    assert_eq!(reference.txid, "f00d");
    assert_eq!(reference.vout, 0);
}

#[test]
fn output_totals_are_exact() {
    let outputs = vec![out(2_000_000_000, Some("trader")), out(5_000, None)];
    assert_eq!(total_output_value(&outputs), Some(2_000_005_000));
    let empty: Vec<DecodedOutput> = Vec::new();
    assert_eq!(total_output_value(&empty), Some(0));
}

#[test]
fn overflowing_output_total_is_reported() {
    let outputs = vec![out(u64::MAX, None), out(1, None)];
    assert_eq!(total_output_value(&outputs), None);
}

#[test]
fn out_of_range_reference_cannot_be_resolved() {
    let (prev_tx, _) = payment_scenario();
    let reference = OutputReference {
        txid: "f00d".to_string(),
        vout: 1,
    };
    assert_eq!(
        resolve_funding(&prev_tx, &reference),
        Err(ProvenanceError::NotFound)
    );
}
