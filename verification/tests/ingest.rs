use rarity::pipeline::{process_batch, run_batch};
use rarity::store::{setup_database, Database};

fn lines_of(strs: &[&str]) -> Vec<Vec<u8>> {
    strs.iter().map(|s| s.as_bytes().to_vec()).collect()
}

const TITLE_LINE: &str = r#"{"metadata":{"type":"title_json","record":{"oclcNumber":"42","isbns":["9780306406157","123"],"machineReadableDate":"2001"}}}"#;
const HOLDINGS_LINE: &str = r#"{"metadata":{"type":"search_holdings_summary_all_editions","record":{"oclc_number":42,"total_holding_count":5,"total_editions":2}}}"#;

#[test]
fn title_line_persists_one_row_and_drops_short_isbn() {
    let mut db: Database = setup_database();
    let failures = run_batch(&mut db, &lines_of(&[TITLE_LINE]));
    assert_eq!(failures, 0);
    assert_eq!(db.isbn_data.len(), 1);
    let row = &db.isbn_data[0];
    assert_eq!(row.oclc_number, 42);
    assert_eq!(row.isbn13, 9780306406157);
    assert_eq!(row.publication_date, Some(2001));
    assert_eq!(row.title, None);
    assert_eq!(row.creator, None);
    assert_eq!(db.holdings_data.len(), 0);
}

#[test]
fn holdings_line_persists_one_row() {
    let mut db: Database = setup_database();
    let failures = run_batch(&mut db, &lines_of(&[HOLDINGS_LINE]));
    assert_eq!(failures, 0);
    assert_eq!(db.holdings_data.len(), 1);
    let row = &db.holdings_data[0];
    assert_eq!(row.oclc_number, 42);
    assert_eq!(row.holding_count, 5);
    assert_eq!(row.edition_count, 2);
    assert_eq!(db.isbn_data.len(), 0);
}

#[test]
fn one_row_per_valid_isbn_sharing_derived_fields() {
    let line = r#"{"metadata":{"type":"title_json","record":{"oclcNumber":"7","title":"A Book","creator":"Someone","isbns":["9780000000001","9790000000002","junk","978"],"date":"around 1987"}}}"#;
    let mut db: Database = setup_database();
    run_batch(&mut db, &lines_of(&[line]));
    assert_eq!(db.isbn_data.len(), 2);
    for row in &db.isbn_data {
        assert_eq!(row.oclc_number, 7);
        assert_eq!(row.publication_date, Some(1987));
        assert_eq!(row.title.as_deref(), Some(b"A Book".as_slice()));
        assert_eq!(row.creator.as_deref(), Some(b"Someone".as_slice()));
    }
    let values: Vec<i64> = db.isbn_data.iter().map(|r| r.isbn13).collect();
    assert_eq!(values, vec![9780000000001, 9790000000002]);
}

#[test]
fn running_twice_changes_nothing() {
    let batch = lines_of(&[TITLE_LINE, HOLDINGS_LINE]);
    let mut once: Database = setup_database();
    run_batch(&mut once, &batch);
    let mut twice: Database = setup_database();
    run_batch(&mut twice, &batch);
    run_batch(&mut twice, &batch);
    assert_eq!(once.isbn_data.len(), twice.isbn_data.len());
    assert_eq!(once.holdings_data.len(), twice.holdings_data.len());
    for (a, b) in once.isbn_data.iter().zip(twice.isbn_data.iter()) {
        assert_eq!(a.oclc_number, b.oclc_number);
        assert_eq!(a.isbn13, b.isbn13);
        assert_eq!(a.publication_date, b.publication_date);
        assert_eq!(a.title, b.title);
        assert_eq!(a.creator, b.creator);
    }
    for (a, b) in once.holdings_data.iter().zip(twice.holdings_data.iter()) {
        assert_eq!(a.oclc_number, b.oclc_number);
        assert_eq!(a.holding_count, b.holding_count);
        assert_eq!(a.edition_count, b.edition_count);
    }
}

#[test]
fn first_write_wins_on_repeated_key() {
    let first = r#"{"metadata":{"type":"title_json","record":{"oclcNumber":"42","isbns":["9780306406157"],"date":"1999"}}}"#;
    let second = r#"{"metadata":{"type":"title_json","record":{"oclcNumber":"42","isbns":["9780306406157"],"date":"2005"}}}"#;
    let mut db: Database = setup_database();
    run_batch(&mut db, &lines_of(&[first, second]));
    assert_eq!(db.isbn_data.len(), 1);
    assert_eq!(db.isbn_data[0].publication_date, Some(1999));
}

#[test]
fn malformed_line_among_many_valid_is_skipped_not_fatal() {
    let mut strs: Vec<String> = Vec::new();
    for i in 0..9999u64 {
        strs.push(format!(
            r#"{{"metadata":{{"type":"search_holdings_summary_all_editions","record":{{"oclc_number":{},"total_holding_count":1,"total_editions":1}}}}}}"#,
            i
        ));
    }
    strs.insert(5000, "{\"metadata\": not json at all".to_string());
    let lines: Vec<Vec<u8>> = strs.iter().map(|s| s.as_bytes().to_vec()).collect();
    let (records, failures) = process_batch(&lines);
    assert_eq!(failures, 1);
    assert_eq!(records.len(), 9999);
}

#[test]
fn empty_batch_produces_nothing() {
    let lines: Vec<Vec<u8>> = Vec::new();
    let (records, failures) = process_batch(&lines);
    assert_eq!(records.len(), 0);
    assert_eq!(failures, 0);
    let mut db: Database = setup_database();
    let f = run_batch(&mut db, &lines);
    assert_eq!(f, 0);
    assert_eq!(db.isbn_data.len(), 0);
    assert_eq!(db.holdings_data.len(), 0);
}

#[test]
fn title_with_unparseable_oclc_id_is_dropped_whole() {
    let line = r#"{"metadata":{"type":"title_json","record":{"oclcNumber":"not-a-number","isbns":["9780306406157"]}}}"#;
    let (records, failures) = process_batch(&lines_of(&[line]));
    assert_eq!(failures, 0);
    assert_eq!(records.len(), 0);
}

#[test]
fn title_with_no_valid_isbn_persists_no_row() {
    let line = r#"{"metadata":{"type":"title_json","record":{"oclcNumber":"9","isbns":["123","abc",""]}}}"#;
    let mut db: Database = setup_database();
    let failures = run_batch(&mut db, &lines_of(&[line]));
    assert_eq!(failures, 0);
    assert_eq!(db.isbn_data.len(), 0);
}

#[test]
fn unrecognized_type_is_ignored_without_error() {
    let line = r#"{"metadata":{"type":"something_else","record":{"whatever":[1,2,{"x":null}]}}}"#;
    let (records, failures) = process_batch(&lines_of(&[line]));
    assert_eq!(failures, 0);
    assert_eq!(records.len(), 0);
}

#[test]
fn missing_metadata_member_is_malformed() {
    let line = r#"{"data":{"type":"title_json"}}"#;
    let (records, failures) = process_batch(&lines_of(&[line]));
    assert_eq!(failures, 1);
    assert_eq!(records.len(), 0);
}

#[test]
fn empty_line_is_malformed() {
    let (records, failures) = process_batch(&lines_of(&[""]));
    assert_eq!(failures, 1);
    assert_eq!(records.len(), 0);
}
