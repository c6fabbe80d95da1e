use provenance::classifier::{classify, Classification};
use provenance::model::{Amount, DecodedOutput};

fn out(sats: u64, address: Option<&str>) -> DecodedOutput {
    DecodedOutput {
        value: Amount { sats },
        address: address.map(|a| a.to_string()),
    }
}

#[test]
fn recipient_and_change_are_found() {
    let outputs = vec![
        out(2_000_000_000, Some("trader")),
        out(5_000, Some("miner_change")),
    ];
    let owned = vec![false, true];
    let c = classify(&outputs, &"trader".to_string(), &owned);
    assert_eq!(c.recipient_address, "trader");
    assert_eq!(c.recipient_amount, Amount { sats: 2_000_000_000 });
    assert_eq!(c.change_address, "miner_change");
    assert_eq!(c.change_amount, Amount { sats: 5_000 });
}

#[test]
fn classify_is_idempotent() {
    let outputs = vec![
        out(42, Some("x")),
        out(7, Some("y")),
        out(9, None),
        out(11, Some("z")),
    ];
    let owned = vec![true, false, true, true];
    let first: Classification = classify(&outputs, &"y".to_string(), &owned);
    let second: Classification = classify(&outputs, &"y".to_string(), &owned);
    assert_eq!(first, second);
}

#[test]
fn no_recipient_match_reports_empty_and_zero() {
    let outputs = vec![out(10, Some("a")), out(20, Some("b"))];
    let owned = vec![false, false];
    let c = classify(&outputs, &"absent".to_string(), &owned);
    assert_eq!(c.recipient_address, "");
    assert_eq!(c.recipient_amount, Amount { sats: 0 });
}

#[test]
fn nothing_owned_reports_empty_and_zero_change() {
    let outputs = vec![out(10, Some("a")), out(20, Some("b")), out(30, None)];
    let owned = vec![false, false, false];
    let c = classify(&outputs, &"a".to_string(), &owned);
    assert_eq!(c.change_address, "");
    assert_eq!(c.change_amount, Amount { sats: 0 });
    // the recipient side is unaffected
    assert_eq!(c.recipient_address, "a");
    assert_eq!(c.recipient_amount, Amount { sats: 10 });
}

#[test]
fn first_recipient_match_wins() {
    let outputs = vec![
        out(1, Some("r")),
        out(2, Some("r")),
        out(3, Some("other")),
    ];
    // even though the second matching output is owned, it stays
    // unclassified rather than becoming change
    let owned = vec![true, true, false];
    let c = classify(&outputs, &"r".to_string(), &owned);
    assert_eq!(c.recipient_address, "r");
    assert_eq!(c.recipient_amount, Amount { sats: 1 });
    assert_eq!(c.change_address, "");
    assert_eq!(c.change_amount, Amount { sats: 0 });
}

#[test]
fn last_owned_output_supersedes_as_change() {
    let outputs = vec![
        out(5, Some("c1")),
        out(6, Some("r")),
        out(7, Some("c2")),
    ];
    let owned = vec![true, false, true];
    let c = classify(&outputs, &"r".to_string(), &owned);
    assert_eq!(c.change_address, "c2");
    assert_eq!(c.change_amount, Amount { sats: 7 });
}

#[test]
fn outputs_without_address_stay_unclassified() {
    let outputs = vec![out(100, None), out(200, None)];
    let owned = vec![true, true];
    let c = classify(&outputs, &"r".to_string(), &owned);
    assert_eq!(c.recipient_address, "");
    assert_eq!(c.recipient_amount, Amount { sats: 0 });
    assert_eq!(c.change_address, "");
    assert_eq!(c.change_amount, Amount { sats: 0 });
}

#[test]
fn empty_output_list_classifies_cleanly() {
    let outputs: Vec<DecodedOutput> = Vec::new();
    let owned: Vec<bool> = Vec::new();
    let c = classify(&outputs, &"r".to_string(), &owned);
    assert_eq!(c.recipient_address, "");
    assert_eq!(c.recipient_amount, Amount { sats: 0 });
    assert_eq!(c.change_address, "");
    assert_eq!(c.change_amount, Amount { sats: 0 });
}
