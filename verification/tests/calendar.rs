use rail::calendar::civil_from_days;
use rail::text::{digit_count, push_digits, push_padded, str_eq, trim};

#[test]
fn civil_dates_around_epoch() {
    assert_eq!(civil_from_days(0), (1970, 1, 1));
    assert_eq!(civil_from_days(1), (1970, 1, 2));
    assert_eq!(civil_from_days(-1), (1969, 12, 31));
    assert_eq!(civil_from_days(19_723), (2024, 1, 1));
    assert_eq!(civil_from_days(11_016), (2000, 2, 29));
    assert_eq!(civil_from_days(-719_468), (0, 3, 1));
}

#[test]
fn civil_dates_across_century_rules() {
    // 1900-03-01 and 2100-02-28 / 2100-03-01.
    assert_eq!(civil_from_days(-25_508), (1900, 3, 1));
    assert_eq!(civil_from_days(47_540), (2100, 2, 28));
    assert_eq!(civil_from_days(47_541), (2100, 3, 1));
}

#[test]
fn digits_and_padding() {
    let mut s = String::new();
    push_digits(&mut s, 0, 10);
    push_digits(&mut s, 255, 16);
    push_padded(&mut s, 7, 10, 3);
    push_padded(&mut s, 12345, 10, 3);
    assert_eq!(s, "0ff00712345");
    assert_eq!(digit_count(0, 10), 1);
    assert_eq!(digit_count(1000, 10), 4);
    assert_eq!(digit_count(255, 16), 2);
}

#[test]
fn trimming_and_equality() {
    assert_eq!(trim("  a b \n"), "a b");
    assert_eq!(trim("\u{3000}x\u{2009}"), "x");
    assert_eq!(trim("   "), "");
    assert!(str_eq("FM", "FM"));
    assert!(!str_eq("FM", "AM"));
    assert!(!str_eq("FM", "FMX"));
}

#[test]
fn distinct_days_give_distinct_dates() {
    let mut seen = std::collections::HashSet::new();
    for d in -800..800i64 {
        assert!(seen.insert(civil_from_days(d * 53)));
    }
}
