use transactions::report::decimal_string;
use transactions::report::format_fixed;
use transactions::Client;
use transactions::Transaction;
use transactions::TransactionType;

#[test]
fn formats_zero_with_four_decimals() {
    assert_eq!(format_fixed(0), "0.0000");
}

#[test]
fn formats_whole_and_fraction_digits() {
    assert_eq!(format_fixed(15000), "1.5000");
    assert_eq!(format_fixed(1), "0.0001");
    assert_eq!(format_fixed(10001), "1.0001");
    assert_eq!(format_fixed(123456789), "12345.6789");
}

#[test]
fn formats_negative_balances() {
    assert_eq!(format_fixed(-30000), "-3.0000");
    assert_eq!(format_fixed(-1), "-0.0001");
}

#[test]
fn formats_the_largest_amount() {
    // u64::MAX units of 1/10000
    assert_eq!(format_fixed(18446744073709551615), "1844674407370955.1615");
    assert_eq!(format_fixed(-18446744073709551615), "-1844674407370955.1615");
}

#[test]
fn renders_plain_decimals() {
    assert_eq!(decimal_string(0), "0");
    assert_eq!(decimal_string(7), "7");
    assert_eq!(decimal_string(65535), "65535");
    assert_eq!(decimal_string(340282366920938463463374607431768211455), "340282366920938463463374607431768211455");
}

#[test]
fn record_reports_locked_as_lowercase_text() {
    let mut client = Client::new(
        1,
        Transaction::new(TransactionType::Deposit, 1, 9, Some(10000)),
    );
    client
        .handle_transaction(Transaction::new(TransactionType::Dispute, 1, 9, None))
        .unwrap();
    client
        .handle_transaction(Transaction::new(TransactionType::Chargeback, 1, 9, None))
        .unwrap();
    assert_eq!(
        client.get_record(9),
        vec!["9", "0.0000", "0.0000", "0.0000", "true"]
    );
}
