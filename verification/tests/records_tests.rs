use rarity::records::{
    parse_isbn13, parse_publication_date, parse_single_date, parse_u64_digits, TitleRecord,
};

fn title_with_dates(
    mrd: Option<&str>,
    pubd: Option<&str>,
    date: Option<&str>,
) -> TitleRecord {
    TitleRecord {
        oclc_number: b"1".to_vec(),
        title: None,
        creator: None,
        isbns: Vec::new(),
        machine_readable_date: mrd.map(|s| s.as_bytes().to_vec()),
        publication_date: pubd.map(|s| s.as_bytes().to_vec()),
        date: date.map(|s| s.as_bytes().to_vec()),
    }
}

#[test]
fn machine_readable_date_wins_over_more_specific_fields() {
    let record = title_with_dates(Some("Jan 1999"), Some("2005"), Some("1980"));
    assert_eq!(parse_publication_date(&record), Some(1999));
}

#[test]
fn later_fields_are_tried_when_earlier_ones_fail() {
    let record = title_with_dates(Some("no year here"), Some("2005"), Some("1980"));
    assert_eq!(parse_publication_date(&record), Some(2005));
    let record = title_with_dates(None, Some("n.d."), Some("circa 1980"));
    assert_eq!(parse_publication_date(&record), Some(1980));
    let record = title_with_dates(None, None, None);
    assert_eq!(parse_publication_date(&record), None);
}

#[test]
fn year_token_needs_word_boundaries() {
    assert_eq!(parse_single_date(b"1999"), Some(1999));
    assert_eq!(parse_single_date(b"Jan 1999."), Some(1999));
    assert_eq!(parse_single_date(b"[2001]"), Some(2001));
    assert_eq!(parse_single_date(b"19999"), None);
    assert_eq!(parse_single_date(b"x1999"), None);
    assert_eq!(parse_single_date(b"1999x"), None);
    assert_eq!(parse_single_date(b"0999"), None);
    assert_eq!(parse_single_date(b"3999"), None);
    assert_eq!(parse_single_date(b""), None);
    assert_eq!(parse_single_date(b"abc 1875 and 2001"), Some(1875));
}

#[test]
fn isbn_range_boundaries() {
    assert_eq!(parse_isbn13(b"9779999999999"), None);
    assert_eq!(parse_isbn13(b"9780000000000"), Some(9780000000000));
    assert_eq!(parse_isbn13(b"9780306406157"), Some(9780306406157));
    assert_eq!(parse_isbn13(b"9799999999999"), Some(9799999999999));
    assert_eq!(parse_isbn13(b"9800000000000"), None);
    assert_eq!(parse_isbn13(b"123"), None);
    assert_eq!(parse_isbn13(b""), None);
    assert_eq!(parse_isbn13(b"97803064061ab"), None);
    assert_eq!(parse_isbn13(b"-9780306406157"), None);
}

#[test]
fn isbn_with_leading_zeros_counts_by_value() {
    assert_eq!(parse_isbn13(b"09780306406157"), Some(9780306406157));
}

#[test]
fn decimal_u64_parsing_and_overflow() {
    assert_eq!(parse_u64_digits(b"0"), Some(0));
    assert_eq!(parse_u64_digits(b"42"), Some(42));
    assert_eq!(parse_u64_digits(b"042"), Some(42));
    assert_eq!(parse_u64_digits(b"18446744073709551615"), Some(u64::MAX));
    assert_eq!(parse_u64_digits(b"18446744073709551616"), None);
    assert_eq!(parse_u64_digits(b""), None);
    assert_eq!(parse_u64_digits(b"12a"), None);
}
