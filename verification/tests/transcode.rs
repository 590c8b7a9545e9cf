use credit::amount::{MAX_MANTISSA, MAX_SCALE};
use credit::transcode::{MalformedRecord, RawAmount, RawTransaction, TransactionType, Transcoded};
use credit::Amount;
use credit::Authority;
use credit::Client;
use credit::DisputeTransactionType;
use credit::OperationTransactionType;
use credit::Transaction;
use rust_decimal::Decimal;
use std::str::FromStr;

fn raw(kind: TransactionType, client: u16, tx: u32, amount: Option<&str>) -> RawTransaction {
    RawTransaction {
        transaction_type: kind,
        client,
        tx,
        amount: amount.map(|text| {
            let decimal = Decimal::from_str(text).unwrap();
            RawAmount {
                mantissa: decimal.mantissa(),
                scale: decimal.scale(),
            }
        }),
    }
}

fn units(text: &str) -> i128 {
    let decimal = Decimal::from_str(text).unwrap();
    Amount::from_decimal_parts(decimal.mantissa(), decimal.scale())
        .unwrap()
        .units()
}

fn render(amount: Amount) -> String {
    Decimal::from_i128_with_scale(amount.units(), 4).to_string()
}

#[test]
fn amounts_are_brought_to_four_places() {
    assert_eq!(units("1"), 1_0000);
    assert_eq!(units("1.0"), 1_0000);
    assert_eq!(units("2.5"), 2_5000);
    assert_eq!(units("0.0001"), 1);
    assert_eq!(units("123.4567"), 123_4567);
    assert_eq!(units("0"), 0);
    assert_eq!(units("-3.25"), -3_2500);
}

#[test]
fn places_beyond_the_fourth_are_rounded_half_away_from_zero() {
    assert_eq!(units("1.23456"), 1_2346);
    assert_eq!(units("1.23454"), 1_2345);
    assert_eq!(units("1.00005"), 1_0001);
    assert_eq!(units("1.00004999"), 1_0000);
    assert_eq!(units("-1.00005"), -1_0001);
    assert_eq!(units("0.00004"), 0);
    assert_eq!(units("0.0000000000000000000000000001"), 0);
}

#[test]
fn amounts_too_large_for_four_places_keep_their_value() {
    // The largest decimal has no room for four more digits; its value is
    // kept all the same.
    let largest = Amount::from_decimal_parts(MAX_MANTISSA, 0).unwrap();
    assert_eq!(largest.units(), MAX_MANTISSA * 10000);
    let smallest = Amount::from_decimal_parts(-MAX_MANTISSA, 0).unwrap();
    assert_eq!(smallest.units(), -MAX_MANTISSA * 10000);
    let at_four = Amount::from_decimal_parts(MAX_MANTISSA, 4).unwrap();
    assert_eq!(at_four.units(), MAX_MANTISSA);
}

#[test]
fn only_decimals_are_amounts() {
    assert_eq!(Amount::from_decimal_parts(MAX_MANTISSA + 1, 0), None);
    assert_eq!(Amount::from_decimal_parts(-MAX_MANTISSA - 1, 4), None);
    assert_eq!(Amount::from_decimal_parts(1, MAX_SCALE + 1), None);
    assert_eq!(Amount::from_decimal_parts(i128::MIN, 0), None);
    assert_eq!(
        Amount::from_decimal_parts(1, MAX_SCALE),
        Some(Amount::zero())
    );
    assert_eq!(
        Amount::from_decimal_parts(5, 5),
        Some(Amount::from_units(1))
    );
}

#[test]
fn amount_constructors_agree() {
    assert_eq!(Amount::zero().units(), 0);
    assert_eq!(Amount::from_units(-42).units(), -42);
    assert_eq!(Amount::from_whole(3).units(), 3_0000);
    assert_eq!(Amount::from_whole(-2), Amount::from_units(-2_0000));
    assert_eq!(
        Amount::from_whole(i64::MAX).units(),
        i64::MAX as i128 * 10000
    );
    assert_eq!(Amount::from_rescaled(7, 0).units(), 7_0000);
    assert_eq!(Amount::from_rescaled(7, 1).units(), 7000);
    assert_eq!(Amount::from_rescaled(7, 2).units(), 700);
    assert_eq!(Amount::from_rescaled(-7, 3).units(), -70);
    assert_eq!(Amount::from_rescaled(7, 4).units(), 7);
}

#[test]
fn operation_record_becomes_an_operation() {
    let t = Transaction::try_from(raw(TransactionType::Deposit, 3, 9, Some("1.5"))).unwrap();
    match t {
        Transaction::Operation(o) => {
            assert_eq!(o.transaction_type(), OperationTransactionType::Deposit);
            assert_eq!(o.client(), 3);
            assert_eq!(o.tx(), 9);
            assert_eq!(o.amount(), Amount::from_units(1_5000));
        }
        Transaction::Dispute(_) => panic!("a deposit is an operation"),
    }
    let t = Transaction::try_from(raw(TransactionType::Withdrawal, 4, 10, Some("0.12345"))).unwrap();
    match t {
        Transaction::Operation(o) => {
            assert_eq!(o.transaction_type(), OperationTransactionType::Withdrawal);
            assert_eq!(o.client(), 4);
            assert_eq!(o.tx(), 10);
            assert_eq!(o.amount().units(), 1235);
        }
        Transaction::Dispute(_) => panic!("a withdrawal is an operation"),
    }
}

#[test]
fn dispute_record_becomes_a_dispute_transaction() {
    let kinds = vec![
        (TransactionType::Dispute, DisputeTransactionType::Dispute),
        (TransactionType::Resolve, DisputeTransactionType::Resolve),
        (
            TransactionType::Chargeback,
            DisputeTransactionType::Chargeback,
        ),
    ];
    for (kind, expected) in kinds {
        for amount in vec![None, Some("1.0"), Some("-1.0")] {
            match Transaction::try_from(raw(kind, 8, 77, amount)).unwrap() {
                Transaction::Dispute(d) => {
                    assert_eq!(d.transaction_type(), expected);
                    assert_eq!(d.client(), 8);
                    assert_eq!(d.tx(), 77);
                }
                Transaction::Operation(_) => panic!("not an operation"),
            }
        }
    }
}

#[test]
fn malformed_records_are_told_apart() {
    assert_eq!(
        Transaction::try_from(raw(TransactionType::Deposit, 1, 1, None)).unwrap_err(),
        MalformedRecord::MissingAmount
    );
    assert_eq!(
        Transaction::try_from(raw(TransactionType::Withdrawal, 1, 1, None)).unwrap_err(),
        MalformedRecord::MissingAmount
    );
    assert_eq!(
        Transaction::try_from(raw(TransactionType::Deposit, 1, 1, Some("-0.0001"))).unwrap_err(),
        MalformedRecord::NegativeAmount
    );
    let no_decimal = RawTransaction {
        transaction_type: TransactionType::Withdrawal,
        client: 1,
        tx: 1,
        amount: Some(RawAmount {
            mantissa: 1,
            scale: 29,
        }),
    };
    assert_eq!(
        Transaction::try_from(no_decimal).unwrap_err(),
        MalformedRecord::InvalidAmount
    );
    // What rounds to zero is no negative amount.
    assert!(Transaction::try_from(raw(TransactionType::Deposit, 1, 1, Some("-0.00001"))).is_ok());
}

#[test]
fn malformed_records_are_dropped_and_the_rest_kept_in_order() {
    let Transcoded { events, malformed } = credit::transcode(vec![
        raw(TransactionType::Deposit, 1, 1, Some("1.0")),
        raw(TransactionType::Deposit, 1, 2, None),
        raw(TransactionType::Dispute, 1, 1, None),
        raw(TransactionType::Withdrawal, 1, 3, Some("-2")),
        raw(TransactionType::Withdrawal, 2, 4, Some("0.5")),
    ]);
    assert_eq!(
        malformed,
        vec![
            MalformedRecord::MissingAmount,
            MalformedRecord::NegativeAmount
        ]
    );
    assert_eq!(events.len(), 3);
    let seen: Vec<(bool, u16, u32)> = events
        .iter()
        .map(|e| match e {
            Transaction::Operation(o) => (true, o.client(), o.tx()),
            Transaction::Dispute(d) => (false, d.client(), d.tx()),
        })
        .collect();
    assert_eq!(seen, vec![(true, 1, 1), (false, 1, 1), (true, 2, 4)]);
    assert!(credit::transcode(Vec::new()).events.is_empty());
}

#[test]
fn new_account_is_empty() {
    let c = Client::new(12);
    assert_eq!(c.id(), 12);
    assert_eq!(c.available(), Amount::zero());
    assert_eq!(c.held(), Amount::zero());
    assert_eq!(c.total(), Amount::zero());
    assert!(!c.locked());
    assert_eq!(c, Client::test(12, 0, 0, 0, false));
    let t = Client::test(1, -2, 1, -1, true);
    assert_eq!(t.available().units(), -2_0000);
    assert_eq!(t.held().units(), 1_0000);
    assert_eq!(t.total().units(), -1_0000);
    assert!(t.locked());
}

#[test]
fn integration() {
    let input = "type, client, tx, amount
deposit, 1, 1, 3.0
deposit, 2, 2, 3.0
withdrawal, 1, 3, 1.5
withdrawal, 2, 4, 3.0
withdrawal, 2, 5
dispute, 1, 1
dispute, 2, 2,
refund, 2, 2, 1.0
chargeback, 2, 2
deposit, 2, 6, 1.0
";
    let mut rdr = csv::ReaderBuilder::new()
        .flexible(true)
        .trim(csv::Trim::All)
        .from_reader(input.as_bytes());

    let mut records = Vec::new();
    for row in rdr.records() {
        let row = row.unwrap();
        let kind = match row.get(0) {
            Some("deposit") => TransactionType::Deposit,
            Some("withdrawal") => TransactionType::Withdrawal,
            Some("dispute") => TransactionType::Dispute,
            Some("resolve") => TransactionType::Resolve,
            Some("chargeback") => TransactionType::Chargeback,
            _ => continue,
        };
        let client: u16 = row.get(1).unwrap().parse().unwrap();
        let tx: u32 = row.get(2).unwrap().parse().unwrap();
        let amount = match row.get(3) {
            Some(text) if !text.is_empty() => Some(text),
            _ => None,
        };
        records.push(raw(kind, client, tx, amount));
    }

    let (authority, _) = Authority::from_iter(credit::transcode(records).events);

    let mut wtr = csv::Writer::from_writer(vec![]);
    wtr.write_record(["client", "available", "held", "total", "locked"])
        .unwrap();
    for client in authority.iter_clients() {
        assert_eq!(
            client.available().units() + client.held().units(),
            client.total().units()
        );
        wtr.write_record([
            client.id().to_string(),
            render(client.available()),
            render(client.held()),
            render(client.total()),
            client.locked().to_string(),
        ])
        .unwrap();
    }

    let data = String::from_utf8(wtr.into_inner().unwrap()).unwrap();

    assert_eq!(
        "client,available,held,total,locked
1,-1.5000,3.0000,1.5000,false
2,-3.0000,0.0000,-3.0000,true
",
        data,
    )
}
