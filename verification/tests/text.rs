use bitcoin::{Amount, Denomination};
use tx_resolver::text::{coin_string, decimal_string, join, lists};

#[test]
fn integers_are_written_without_leading_zeros() {
    assert_eq!(decimal_string(0), "0");
    assert_eq!(decimal_string(7), "7");
    assert_eq!(decimal_string(10), "10");
    assert_eq!(decimal_string(102), "102");
    assert_eq!(decimal_string(9_000_100), "9000100");
    assert_eq!(decimal_string(u64::MAX), "18446744073709551615");
}

#[test]
fn amounts_are_written_in_whole_coins() {
    assert_eq!(coin_string(0), "0");
    assert_eq!(coin_string(1), "0.00000001");
    assert_eq!(coin_string(10), "0.0000001");
    assert_eq!(coin_string(10_000), "0.0001");
    assert_eq!(coin_string(99_999_999), "0.99999999");
    assert_eq!(coin_string(100_000_000), "1");
    assert_eq!(coin_string(100_000_001), "1.00000001");
    assert_eq!(coin_string(150_000_000), "1.5");
    assert_eq!(coin_string(2_000_000_000), "20");
    assert_eq!(coin_string(2_999_990_000), "29.9999");
    assert_eq!(coin_string(5_000_000_000), "50");
    assert_eq!(coin_string(1_020_304_050), "10.2030405");
    assert_eq!(coin_string(2_100_000_000_000_000), "21000000");
    assert_eq!(coin_string(u64::MAX), "184467440737.09551615");
}

fn samples() -> Vec<u64> {
    let mut values: Vec<u64> = vec![0, 1, 9, 10, 11, 99, 100, 101, 12_345_678, 2_100_000_000_000_000];
    let mut power: u64 = 1;
    for _ in 0..16 {
        values.push(power);
        values.push(power - 1);
        values.push(power + 1);
        values.push(power * 7);
        values.push(power * 21 + 3);
        power *= 10;
    }
    values
}

#[test]
fn amounts_read_as_the_amount_type_writes_them() {
    for units in samples().into_iter().chain(vec![u64::MAX, u64::MAX - 1, 1 << 63]) {
        let expected = Amount::from_sat(units).to_string_in(Denomination::Bitcoin);
        assert_eq!(coin_string(units), expected, "units: {}", units);
    }
}

#[test]
fn amounts_within_the_money_supply_read_as_their_floating_point_value_prints() {
    for units in samples() {
        if units <= Amount::MAX_MONEY.to_sat() {
            let printed = format!("{}", Amount::from_sat(units).to_btc());
            assert_eq!(coin_string(units), printed, "units: {}", units);
        }
    }
}

#[test]
fn texts_are_joined_with_the_separator_between_them() {
    let none: Vec<String> = vec![];
    assert_eq!(join(&none, ", "), "");
    assert_eq!(join(&vec!["a".to_string()], ", "), "a");
    assert_eq!(join(&vec!["a".to_string(), "b".to_string()], ", "), "a, b");
    assert_eq!(
        join(&vec!["a".to_string(), "".to_string(), "c".to_string()], "-"),
        "a--c"
    );
}

#[test]
fn a_list_holds_exactly_its_names() {
    let names = vec!["Miner".to_string(), "Trader".to_string()];
    assert!(lists(&names, &"Miner".to_string()));
    assert!(lists(&names, &"Trader".to_string()));
    assert!(!lists(&names, &"miner".to_string()));
    assert!(!lists(&vec![], &"Miner".to_string()));
}
