use mintick::account::is_valid_account_id;
use mintick::text::{colon_count, split_first, split_second, u64_to_decimal};

#[test]
fn decimal_formatting() {
    assert_eq!(u64_to_decimal(0), "0");
    assert_eq!(u64_to_decimal(7), "7");
    assert_eq!(u64_to_decimal(10), "10");
    assert_eq!(u64_to_decimal(1234567890), "1234567890");
    assert_eq!(u64_to_decimal(u64::MAX), u64::MAX.to_string());
}

#[test]
fn splitting_at_colons() {
    assert_eq!(colon_count("12"), 0);
    assert_eq!(colon_count("12:3"), 1);
    assert_eq!(colon_count("a:b:c"), 2);
    assert_eq!(split_first("12:3"), "12");
    assert_eq!(split_first("12"), "12");
    assert_eq!(split_second("12:3"), "3");
    assert_eq!(split_second("a:b:c"), "b");
    assert_eq!(split_second("a:"), "");
    assert_eq!(split_first("ü:x"), "ü");
}

#[test]
fn account_ids() {
    for ok in ["aa", "a-a", "b-o_w_e-n", "google.com", "illia.cheapaccounts.near", "0123456789012345678901234567890123456789012345678901234567890123"] {
        assert!(is_valid_account_id(&ok.to_string()), "{}", ok);
    }
    for bad in ["a", "A", "-a", "a-", "a..b", "a-_b", "alice@near", "", "ü", "01234567890123456789012345678901234567890123456789012345678901234"] {
        assert!(!is_valid_account_id(&bad.to_string()), "{}", bad);
    }
}
