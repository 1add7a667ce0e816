use transitops_backend::money::{format_amount, parse_amount};
use transitops_backend::reconciliation::importer::validate_and_parse;

fn amt(s: &str) -> Option<i64> {
    let v: Vec<char> = s.chars().collect();
    parse_amount(&v)
}

fn text(m: i64) -> String {
    format_amount(m).into_iter().collect()
}

#[test]
fn plain_decimals_are_exact_micros() {
    assert_eq!(amt("100.50"), Some(100_500_000));
    assert_eq!(amt("+7"), Some(7_000_000));
    assert_eq!(amt("12."), Some(12_000_000));
    assert_eq!(amt(".5"), Some(500_000));
    assert_eq!(amt("-0.000001"), Some(-1));
}

#[test]
fn exponent_forms_are_read() {
    assert_eq!(amt("1.5e3"), Some(1_500_000_000));
    assert_eq!(amt("1E-2"), Some(10_000));
    assert_eq!(amt("1e+2"), Some(100_000_000));
    assert_eq!(amt("25e-1"), Some(2_500_000));
}

#[test]
fn extra_fraction_digits_round_to_the_nearest_micro() {
    assert_eq!(amt("0.1234567"), Some(123_457));
    assert_eq!(amt("0.1234564"), Some(123_456));
    assert_eq!(amt("0.0000005"), Some(1));
    assert_eq!(amt("0.00000049"), Some(0));
    assert_eq!(amt("-0.0000005"), Some(-1));
    assert_eq!(amt("1.50000000"), Some(1_500_000));
    assert_eq!(amt("1234567890123456789012345e-20"), Some(12_345_678_901));
}

#[test]
fn tiny_and_zero_values_under_huge_exponents() {
    assert_eq!(amt("5e-400"), Some(0));
    assert_eq!(amt("0e400"), Some(0));
    assert_eq!(amt("0.0e99999999999999999999999999999999999"), Some(0));
    assert_eq!(amt("7e-99999999999999999999999999999999999"), Some(0));
}

#[test]
fn amounts_beyond_the_i64_range_are_refused() {
    assert_eq!(amt("9223372036854.775807"), Some(i64::MAX));
    assert_eq!(amt("9223372036854.775808"), None);
    assert_eq!(amt("-9223372036854.775808"), Some(i64::MIN));
    assert_eq!(amt("1e400"), None);
    assert_eq!(amt("1e99999999999999999999999999999999999"), None);
}

#[test]
fn malformed_amounts_are_refused() {
    for bad in ["", "-", ".", "e5", "1e", "1e+", "1.2.3", "1,5", "abc", "inf", "NaN", "--1", "1e5e2", "1e2.5"] {
        assert_eq!(amt(bad), None, "{bad}");
    }
}

#[test]
fn formatting_gives_the_shortest_text() {
    assert_eq!(text(100_500_000), "100.5");
    assert_eq!(text(-50_000_000), "-50");
    assert_eq!(text(1), "0.000001");
}

#[test]
fn statement_amount_in_exponent_form_is_accepted() {
    let content = b"date,ref,amount,type,description\n2025-01-15,TXN001,1.5e2,credit,\n".to_vec();
    let r = validate_and_parse(&content);
    assert!(r.is_valid, "{:?}", r.errors);
    assert_eq!(r.records[0].amount, 150_000_000);
}
