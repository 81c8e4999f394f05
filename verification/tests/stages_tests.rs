use rarity::pipeline::{milestone_reached, LineBatcher, QueueFlow, RecordCounter};
use rarity::progress::ZstdStreamWithProgress;
use rarity::json::parse_line;
use rarity::records::RawRecord;

#[test]
fn batcher_hands_off_full_and_final_partial_batches() {
    let mut batcher = LineBatcher::new(3);
    assert!(batcher.push(b"a".to_vec()).is_none());
    assert!(batcher.push(b"b".to_vec()).is_none());
    let full = batcher.push(b"c".to_vec()).expect("third line fills the batch");
    assert_eq!(full, vec![b"a".to_vec(), b"b".to_vec(), b"c".to_vec()]);
    assert!(batcher.push(b"d".to_vec()).is_none());
    let rest = batcher.finish().expect("one line is still held");
    assert_eq!(rest, vec![b"d".to_vec()]);
    assert!(batcher.finish().is_none());
}

#[test]
fn milestone_fires_when_total_crosses_a_boundary() {
    assert!(milestone_reached(1_000_000, 10_000));
    assert!(milestone_reached(1_009_999, 10_000));
    assert!(!milestone_reached(1_010_000, 10_000));
    assert!(!milestone_reached(999_999, 10_000));
    assert!(milestone_reached(0, 10_000));
}

#[test]
fn record_counter_accumulates_batch_sizes() {
    let mut counter = RecordCounter::new();
    assert_eq!(counter.add_batch(10_000), 10_000);
    assert_eq!(counter.add_batch(5), 10_005);
    assert_eq!(counter.count, 10_005);
}

#[test]
fn progress_reports_at_most_once_per_second() {
    let mut stream = ZstdStreamWithProgress::new(1000);
    assert!(stream.record_read(100, 0).is_none());
    assert!(stream.record_read(100, 0).is_none());
    let report = stream.record_read(50, 2).expect("a second has passed");
    assert_eq!(report.bytes_read, 250);
    assert_eq!(report.total_size, 1000);
    assert_eq!(report.bytes_delta, 250);
    assert_eq!(report.elapsed_secs, 2);
    let report2 = stream.record_read(10, 1).expect("another second has passed");
    assert_eq!(report2.bytes_delta, 10);
    assert_eq!(report2.bytes_read, 260);
}

#[test]
fn queue_flow_counts_batches_through_their_lifecycle() {
    let mut flow = QueueFlow::new(8, 2, 10_000);
    flow.enqueue();
    flow.enqueue();
    assert_eq!(flow.queued, 2);
    flow.begin_batch();
    assert_eq!(flow.queued, 1);
    assert_eq!(flow.in_worker, 1);
    flow.begin_batch();
    flow.finish_batch();
    flow.finish_batch();
    assert_eq!(flow.queued, 0);
    assert_eq!(flow.in_worker, 0);
}

#[test]
fn string_escapes_reach_record_fields() {
    let line = r#"{"metadata":{"type":"title_json","record":{"oclcNumber":"8","title":"a\tb \"q\" é😀","isbns":[]}}}"#;
    let parsed = parse_line(line.as_bytes()).expect("line is well formed");
    match parsed.metadata {
        RawRecord::TitleJson { record } => {
            assert_eq!(record.oclc_number, b"8".to_vec());
            let title = record.title.expect("title present");
            assert_eq!(
                String::from_utf8(title).unwrap(),
                "a\tb \"q\" \u{e9}\u{1f600}"
            );
            assert!(record.isbns.is_empty());
        }
        _ => panic!("expected a title record"),
    }
}

#[test]
fn member_order_and_unknown_members_do_not_matter() {
    let line = br#"{ "extra": [1, {"deep": "x]}"}], "metadata": { "record": {"total_editions": 2, "oclc_number": 42, "ignored": null, "total_holding_count": 5}, "type": "search_holdings_summary_all_editions" } }"#;
    let parsed = parse_line(line).expect("line is well formed");
    match parsed.metadata {
        RawRecord::SearchHoldings { record } => {
            assert_eq!(record.oclc_number, 42);
            assert_eq!(record.total_holding_count, 5);
            assert_eq!(record.total_editions, 2);
        }
        _ => panic!("expected a holdings record"),
    }
}

#[test]
fn holdings_with_wrong_field_type_is_malformed() {
    let line = br#"{"metadata":{"type":"search_holdings_summary_all_editions","record":{"oclc_number":"42","total_holding_count":5,"total_editions":2}}}"#;
    assert!(parse_line(line).is_none());
    let line = br#"{"metadata":{"type":"search_holdings_summary_all_editions","record":{"oclc_number":42,"total_holding_count":5.5,"total_editions":2}}}"#;
    assert!(parse_line(line).is_none());
    let line = br#"{"metadata":{"type":"search_holdings_summary_all_editions","record":{"oclc_number":42,"total_holding_count":5}}}"#;
    assert!(parse_line(line).is_none());
}

#[test]
fn title_missing_required_members_is_malformed() {
    let line = br#"{"metadata":{"type":"title_json","record":{"isbns":["9780306406157"]}}}"#;
    assert!(parse_line(line).is_none());
    let line = br#"{"metadata":{"type":"title_json","record":{"oclcNumber":"42"}}}"#;
    assert!(parse_line(line).is_none());
}

#[test]
fn member_names_match_after_unescaping() {
    let line = r#"{"\u006detadata":{"type":"title_json","record":{"oclcNu\u006dber":"3","isbns":["9780000000003"]}}}"#;
    let parsed = parse_line(line.as_bytes()).expect("escaped member name still matches");
    match parsed.metadata {
        RawRecord::TitleJson { record } => {
            assert_eq!(record.oclc_number, b"3".to_vec());
            assert_eq!(record.isbns, vec![b"9780000000003".to_vec()]);
        }
        _ => panic!("expected a title record"),
    }
}

#[test]
fn trailing_garbage_is_malformed() {
    let line = br#"{"metadata":{"type":"title_json","record":{"oclcNumber":"42","isbns":[]}}} extra"#;
    assert!(parse_line(line).is_none());
}
