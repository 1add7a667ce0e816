use transitops_backend::date::Date;
use transitops_backend::reconciliation::discrepancy::{
    canonical_index, classify_amounts, find_duplicates, is_duplicate, net_discrepancy,
    DiscrepancySummary,
};
use transitops_backend::reconciliation::engine::{
    needs_alert, reconcile, reconciliation_events, EventSeverity, LineInput, ReconEvent, TxnInput,
};
use transitops_backend::reconciliation::importer::{fingerprint, validate_and_parse, verify_fingerprint};
use transitops_backend::reconciliation::models::{
    DiscrepancyType, EntryType, ListItemsQuery, ListRunsQuery, StatementRecord,
};

const UNIT: i64 = 1_000_000;

fn rec(r: &str) -> StatementRecord {
    rec_amount(r, 100 * UNIT)
}

fn rec_amount(r: &str, amount: i64) -> StatementRecord {
    StatementRecord {
        reference: r.to_string(),
        amount,
        entry_type: EntryType::Credit,
        date: Date { year: 2025, month: 1, day: 15 },
        description: None,
    }
}

fn summary(matched: usize, mism: usize, missing: usize, extra: usize, dups: usize) -> DiscrepancySummary {
    DiscrepancySummary {
        matched,
        amount_mismatches: mism,
        missing_from_statement: missing,
        extra_in_statement: extra,
        duplicates: dups,
    }
}

// ---- duplicates and classification ----

#[test]
fn no_duplicates_returns_empty_map() {
    let records = vec![rec("A"), rec("B"), rec("C")];
    let dups = find_duplicates(&records);
    assert!(dups.is_empty());
}

#[test]
fn single_duplicate_pair_detected() {
    let records = vec![rec("A"), rec("B"), rec("A")];
    let dups = find_duplicates(&records);
    assert_eq!(dups.len(), 1);
    assert!(dups.contains_key("A"));
    assert_eq!(dups.get("A").unwrap(), &vec![0, 2]);
}

#[test]
fn triple_occurrence_detected() {
    let records = vec![rec("X"), rec("X"), rec("X"), rec("Y")];
    let dups = find_duplicates(&records);
    assert_eq!(dups.get("X").unwrap().len(), 3);
    assert!(!dups.contains_key("Y"));
}

#[test]
fn canonical_index_is_first() {
    assert_eq!(canonical_index(&[3, 1, 5]), 1);
}

#[test]
fn classify_amounts_within_tolerance() {
    assert_eq!(classify_amounts(100_000_000, 100_000_000), DiscrepancyType::Matched);
    assert_eq!(classify_amounts(100_000_000, 100_010_000), DiscrepancyType::Matched);
    assert_eq!(classify_amounts(100_000_000, 99_990_000), DiscrepancyType::Matched);
}

#[test]
fn classify_amounts_exceeds_tolerance() {
    assert_eq!(classify_amounts(100_000_000, 100_020_000), DiscrepancyType::AmountMismatch);
    assert_eq!(classify_amounts(100_000_000, 99_980_000), DiscrepancyType::AmountMismatch);
}

#[test]
fn net_discrepancy_positive_and_negative() {
    assert_eq!(net_discrepancy(100 * UNIT, 120 * UNIT), 20 * UNIT as i128);
    assert_eq!(net_discrepancy(100 * UNIT, 80 * UNIT), -20 * UNIT as i128);
}

#[test]
fn summary_high_discrepancy_count() {
    let s = summary(5, 11, 0, 0, 0);
    assert!(s.is_high(100));
}

#[test]
fn summary_high_discrepancy_percentage() {
    let s = summary(90, 0, 6, 0, 0);
    assert!(s.is_high(100));
}

#[test]
fn summary_clean() {
    let s = summary(50, 0, 0, 0, 0);
    assert!(s.is_clean());
}

#[test]
fn is_duplicate_works() {
    let records = vec![rec("A"), rec("B"), rec("A")];
    let dups = find_duplicates(&records);
    assert!(is_duplicate(0, &dups));
    assert!(is_duplicate(2, &dups));
    assert!(!is_duplicate(1, &dups));
}

#[test]
fn matched_within_tolerance() {
    assert_eq!(classify_amounts(100_000_000, 100_005_000), DiscrepancyType::Matched);
}

#[test]
fn mismatch_beyond_tolerance() {
    assert_eq!(classify_amounts(100_000_000, 100_020_000), DiscrepancyType::AmountMismatch);
}

#[test]
fn duplicate_detection_in_engine_context() {
    let records = vec![rec_amount("TXN-1", 50 * UNIT), rec_amount("TXN-2", 75 * UNIT), rec_amount("TXN-1", 50 * UNIT)];
    let dups = find_duplicates(&records);
    assert!(dups.contains_key("TXN-1"));
    assert_eq!(dups.get("TXN-1").unwrap().len(), 2);
    assert_eq!(canonical_index(dups.get("TXN-1").unwrap()), 0);
}

#[test]
fn summary_totals_correctly() {
    let s = summary(10, 2, 1, 1, 0);
    assert_eq!(s.total_discrepancies(), 4);
    assert!(!s.is_clean());
    assert!(!s.is_high(100));
}

// ---- engine ----

fn txn(id: u128, key: &str, amount: i64) -> TxnInput {
    TxnInput { id, idempotency_key: key.to_string(), amount }
}

fn line(id: u128, r: Option<&str>, amount: i64) -> LineInput {
    LineInput { id, transaction_ref: r.map(|s| s.to_string()), amount }
}

#[test]
fn engine_pairs_by_key_and_classifies() {
    let records = vec![rec_amount("K1", 10 * UNIT), rec_amount("K2", 20 * UNIT)];
    let lines = vec![line(100, Some("K1"), 10 * UNIT), line(101, Some("K2"), 25 * UNIT)];
    let txns = vec![txn(1, "K1", 10 * UNIT), txn(2, "K2", 20 * UNIT), txn(3, "K3", 99 * UNIT)];
    let out = reconcile(&records, &txns, &lines);
    assert_eq!(out.items.len(), 3);
    assert_eq!(out.items[0].discrepancy_type, DiscrepancyType::Matched);
    assert_eq!(out.items[0].statement_line_id, Some(100));
    assert_eq!(out.items[1].discrepancy_type, DiscrepancyType::AmountMismatch);
    assert_eq!(out.items[1].actual_amount, 25 * UNIT);
    assert_eq!(out.items[2].discrepancy_type, DiscrepancyType::MissingFromStatement);
    assert_eq!(out.items[2].statement_line_id, None);
    assert_eq!(out.summary, summary(1, 1, 1, 0, 0));
    assert_eq!(out.total_expected, 129 * UNIT as i128);
    assert_eq!(out.total_collected, 35 * UNIT as i128);
}

#[test]
fn engine_falls_back_to_amount_and_lists_extras() {
    let records = vec![rec("A"), rec("B"), rec("A"), rec("C")];
    let lines = vec![
        line(10, Some("A"), 5 * UNIT),
        line(11, Some("B"), 7 * UNIT),
        line(12, Some("A"), 5 * UNIT),
        line(13, None, 3 * UNIT),
    ];
    // "X" has no line: falls back to the first unclaimed line of equal amount (line 11).
    let txns = vec![txn(1, "X", 7 * UNIT)];
    let out = reconcile(&records, &txns, &lines);
    assert_eq!(out.items[0].statement_line_id, Some(11));
    assert_eq!(out.items[0].discrepancy_type, DiscrepancyType::Matched);
    // Remaining lines: two with a duplicated reference, one without reference.
    assert_eq!(out.items.len(), 4);
    assert_eq!(out.items[1].discrepancy_type, DiscrepancyType::Duplicate);
    assert_eq!(out.items[2].discrepancy_type, DiscrepancyType::Duplicate);
    assert_eq!(out.items[3].discrepancy_type, DiscrepancyType::ExtraInStatement);
    assert_eq!(out.items[3].transaction_id, None);
    assert_eq!(out.summary, summary(1, 0, 0, 1, 2));
}

#[test]
fn engine_ignores_duplicate_line_that_is_not_canonical() {
    // Reference "A" occurs at positions 0 and 1; only line 0 may stand for it.
    let records = vec![rec("A"), rec("A")];
    let lines = vec![line(20, Some("A"), 1 * UNIT), line(21, Some("A"), 2 * UNIT)];
    let txns = vec![txn(1, "A", 1 * UNIT)];
    let out = reconcile(&records, &txns, &lines);
    assert_eq!(out.items[0].statement_line_id, Some(20));
    assert_eq!(out.items[0].discrepancy_type, DiscrepancyType::Matched);
    assert_eq!(out.items.len(), 1);
}

#[test]
fn events_for_clean_and_high_runs() {
    let clean = summary(3, 0, 0, 0, 0);
    assert_eq!(reconciliation_events(&clean, 3), vec![ReconEvent::Completed { severity: EventSeverity::Info }]);
    assert!(!needs_alert(&clean));
    let bad = summary(0, 11, 0, 0, 0);
    let ev = reconciliation_events(&bad, 11);
    assert_eq!(ev.len(), 3);
    assert_eq!(ev[0], ReconEvent::Completed { severity: EventSeverity::Warning });
    assert_eq!(ev[1].event_type(), "payments.reconciliation.discrepancy_found");
    assert_eq!(ev[2].severity(), Some(EventSeverity::Critical));
    assert!(needs_alert(&bad));
}

// ---- importer ----

fn csv(body: &str) -> Vec<u8> {
    format!("date,ref,amount,type,description\n{}", body).into_bytes()
}

#[test]
fn valid_csv_parses_all_rows() {
    let content = csv("2025-01-15,TXN001,100.50,credit,Bus fare\n2025-01-15,TXN002,50.00,debit,Refund\n");
    let r = validate_and_parse(&content);
    assert!(r.is_valid, "{:?}", r.errors);
    assert_eq!(r.records.len(), 2);
    assert_eq!(r.records[0].reference, "TXN001");
    assert_eq!(r.records[0].amount, 100_500_000);
    assert_eq!(r.records[0].entry_type, EntryType::Credit);
    assert_eq!(r.records[0].description, Some("Bus fare".to_string()));
    assert_eq!(r.records[0].date, Date { year: 2025, month: 1, day: 15 });
    assert_eq!(r.records[1].entry_type, EntryType::Debit);
}

#[test]
fn missing_required_column_errors() {
    let content = b"ref,amount,type\nTXN001,100,credit\n";
    let r = validate_and_parse(content);
    assert!(!r.is_valid);
    assert!(r.errors.iter().any(|e| e.contains("date")));
    assert_eq!(r.errors, vec!["Missing required column: 'date'".to_string()]);
}

#[test]
fn invalid_date_format_skips_row() {
    let content = csv("01/15/2025,TXN001,100.00,credit,\n");
    let r = validate_and_parse(&content);
    assert!(!r.is_valid);
    assert!(r.records.is_empty());
    assert!(r.errors.iter().any(|e| e.contains("date")));
    assert_eq!(r.errors[0], "Line 2: invalid 'date' '01/15/2025' — expected YYYY-MM-DD");
}

#[test]
fn invalid_amount_skips_row() {
    let content = csv("2025-01-15,TXN001,not_a_number,credit,\n");
    let r = validate_and_parse(&content);
    assert!(!r.is_valid);
    assert!(r.records.is_empty());
}

#[test]
fn negative_amount_skips_row() {
    let content = csv("2025-01-15,TXN001,-50.00,credit,\n");
    let r = validate_and_parse(&content);
    assert!(!r.is_valid);
    assert_eq!(r.errors[0], "Line 2: 'amount' must be non-negative, got -50");
}

#[test]
fn invalid_type_skips_row() {
    let content = csv("2025-01-15,TXN001,100,payment,\n");
    let r = validate_and_parse(&content);
    assert!(!r.is_valid);
    assert_eq!(r.errors[0], "Line 2: invalid 'type' 'payment' — expected 'debit' or 'credit'");
}

#[test]
fn empty_ref_skips_row() {
    let content = csv("2025-01-15,,100.00,credit,\n");
    let r = validate_and_parse(&content);
    assert!(!r.is_valid);
    assert!(r.records.is_empty());
}

#[test]
fn amount_with_commas_parsed() {
    let content = csv("2025-01-15,TXN001,\"1,234.56\",credit,\n");
    let r = validate_and_parse(&content);
    assert!(r.is_valid, "{:?}", r.errors);
    assert_eq!(r.records[0].amount, 1_234_560_000);
}

#[test]
fn non_utf8_returns_error() {
    let content = b"\xff\xfe invalid bytes";
    let r = validate_and_parse(content);
    assert!(!r.is_valid);
    assert!(r.errors[0].contains("UTF-8"));
}

#[test]
fn fingerprint_verify_roundtrip() {
    let data = b"hello world";
    let fp = fingerprint(data);
    assert!(verify_fingerprint(data, &fp));
    assert!(verify_fingerprint(data, &fp.to_uppercase()));
    assert!(!verify_fingerprint(data, "wrong"));
}

#[test]
fn fingerprint_is_sha256() {
    let fp = fingerprint(b"abc");
    assert!(fp.starts_with("ba7816bf"), "got: {}", fp);
    assert_eq!(fp.len(), 64);
}

#[test]
fn case_insensitive_headers() {
    let content = b"Date,REF,Amount,Type\n2025-01-15,TXN001,100.00,credit\n";
    let r = validate_and_parse(content);
    assert!(r.is_valid, "{:?}", r.errors);
    assert_eq!(r.records.len(), 1);
    assert_eq!(r.records[0].description, None);
}

// ---- paging ----

#[test]
fn run_and_item_queries_clamp_paging() {
    let q = ListRunsQuery { status: None, limit: Some(1000), offset: Some(-4) };
    assert_eq!(q.effective_limit(), 100);
    assert_eq!(q.effective_offset(), 0);
    let q = ListItemsQuery { discrepancy_type: None, limit: None, offset: Some(7) };
    assert_eq!(q.effective_limit(), 100);
    assert_eq!(q.effective_offset(), 7);
}

#[test]
fn line_without_reference_is_paired_once() {
    let records = vec![rec("R1")];
    let lines = vec![line(30, None, 4 * UNIT)];
    let txns = vec![txn(1, "X", 4 * UNIT), txn(2, "Y", 4 * UNIT), txn(3, "Z", 4 * UNIT)];
    let out = reconcile(&records, &txns, &lines);
    assert_eq!(out.items.len(), 3);
    assert_eq!(out.items[0].statement_line_id, Some(30));
    assert_eq!(out.items[0].discrepancy_type, DiscrepancyType::Matched);
    assert_eq!(out.items[1].statement_line_id, None);
    assert_eq!(out.items[1].discrepancy_type, DiscrepancyType::MissingFromStatement);
    assert_eq!(out.items[2].discrepancy_type, DiscrepancyType::MissingFromStatement);
    assert_eq!(out.summary, summary(1, 0, 2, 0, 0));
}

#[test]
fn one_discrepancy_in_nineteen_records_is_high() {
    assert!(summary(18, 1, 0, 0, 0).is_high(19));
    assert!(!summary(19, 1, 0, 0, 0).is_high(20));
}

#[test]
fn line_taken_by_amount_is_not_paired_again_by_key() {
    let records = vec![rec("A")];
    let lines = vec![line(40, Some("A"), 5 * UNIT)];
    let txns = vec![txn(1, "X", 5 * UNIT), txn(2, "A", 5 * UNIT)];
    let out = reconcile(&records, &txns, &lines);
    assert_eq!(out.items.len(), 2);
    assert_eq!(out.items[0].statement_line_id, Some(40));
    assert_eq!(out.items[0].discrepancy_type, DiscrepancyType::Matched);
    assert_eq!(out.items[1].statement_line_id, None);
    assert_eq!(out.items[1].discrepancy_type, DiscrepancyType::MissingFromStatement);
}

#[test]
fn column_order_and_header_case_do_not_change_the_parse() {
    let a = validate_and_parse(b"date,ref,amount,type\n2025-01-15,TXN001,100.00,credit\n2025-01-16,TXN002,5,debit\n");
    let b = validate_and_parse(b"Type,AMOUNT,Ref,Date\ncredit,100.00,TXN001,2025-01-15\ndebit,5,TXN002,2025-01-16\n");
    assert!(a.is_valid && b.is_valid);
    assert_eq!(a.records.len(), 2);
    for (x, y) in a.records.iter().zip(b.records.iter()) {
        assert_eq!(x.reference, y.reference);
        assert_eq!(x.amount, y.amount);
        assert_eq!(x.entry_type, y.entry_type);
        assert_eq!(x.date, y.date);
        assert_eq!(x.description, y.description);
    }
}
