use relay_sr201::error::Error;
use relay_sr201::range::parse_relaylist;

fn parsed(s: &str) -> Vec<u8> {
    match parse_relaylist(s) {
        Ok(v) => v,
        Err(e) => panic!("{} did not parse: {:?}", s, e),
    }
}

#[test]
fn single_digits_select_one_channel() {
    for ch in 0u8..8 {
        assert_eq!(parsed(&ch.to_string()), vec![ch]);
    }
}

#[test]
fn all_selects_every_channel() {
    assert_eq!(parsed("all"), vec![0, 1, 2, 3, 4, 5, 6, 7]);
}

#[test]
fn out_of_bounds_and_negative_fail() {
    assert!(matches!(parse_relaylist("8"), Err(Error::Parse(s)) if s == "8"));
    assert!(matches!(parse_relaylist("-1"), Err(Error::Parse(s)) if s == "-1"));
    assert!(matches!(parse_relaylist(""), Err(Error::Parse(_))));
    assert!(matches!(parse_relaylist("abc"), Err(Error::Parse(_))));
}

#[test]
fn ranges_exclusive_inclusive_and_open() {
    assert_eq!(parsed("2..5"), vec![2, 3, 4]);
    assert_eq!(parsed("2..=5"), vec![2, 3, 4, 5]);
    assert_eq!(parsed("..3"), vec![0, 1, 2, 3]);
    assert_eq!(parsed("..4"), vec![0, 1, 2, 3, 4]);
    assert_eq!(parsed("3.."), vec![3, 4, 5, 6, 7]);
    assert_eq!(parsed("..=3"), vec![0, 1, 2, 3]);
    assert_eq!(parsed("5.."), vec![5, 6, 7]);
    assert_eq!(parsed(".."), vec![0, 1, 2, 3, 4, 5, 6, 7]);
    assert_eq!(parsed("3..3"), Vec::<u8>::new());
}

#[test]
fn reversed_range_fails() {
    assert!(matches!(parse_relaylist("4..2"), Err(Error::Parse(s)) if s == "4..2"));
}

#[test]
fn range_end_past_last_channel_fails() {
    assert!(matches!(parse_relaylist("2..9"), Err(Error::Parse(_))));
    assert!(matches!(parse_relaylist("0..=8"), Err(Error::Parse(_))));
}

#[test]
fn plus_sign_and_leading_zeros_read_as_number() {
    assert_eq!(parsed("+3"), vec![3]);
    assert_eq!(parsed("007"), vec![7]);
}

#[test]
fn range_found_inside_longer_text() {
    assert_eq!(parsed("x1..3"), vec![1, 2]);
    assert_eq!(parsed("2...5"), vec![2, 3, 4, 5, 6, 7]);
}

#[test]
fn oversized_bounds_fail() {
    assert!(matches!(parse_relaylist("300..2"), Err(Error::Parse(_))));
    assert!(matches!(parse_relaylist("0..300"), Err(Error::Parse(_))));
    assert!(matches!(parse_relaylist("300.."), Err(Error::Parse(_))));
    assert!(matches!(parse_relaylist("..=256"), Err(Error::Parse(_))));
}
