use checkpoint_csv::apply_write;
use checkpoint_csv::encode_row;
use checkpoint_csv::u64_to_string;
use checkpoint_csv::CheckpointSummaryRecord;
use checkpoint_csv::GasCostSummaryRecord;

const HEADER: &str = "epoch,sequence_number,network_total_transactions,content_digest,\
computation_cost,storage_cost,storage_rebate,non_refundable_storage_fee,timestamp_ms,transactions\n";

fn sample_record() -> CheckpointSummaryRecord {
    CheckpointSummaryRecord {
        epoch: 5,
        sequence_number: 1000,
        network_total_transactions: 42,
        content_digest: bs58::decode("abc123").into_vec().unwrap(),
        epoch_rolling_gas_cost_summary: GasCostSummaryRecord {
            computation_cost: 10,
            storage_cost: 20,
            storage_rebate: 5,
            non_refundable_storage_fee: 1,
        },
        timestamp_ms: 1_700_000_000_000,
    }
}

#[test]
fn field_encoding_exact_row() {
    let row = encode_row(&sample_record(), 3, false);
    assert_eq!(row, "5,1000,42,abc123,10,20,5,1,1700000000000,3\n");
}

#[test]
fn first_row_includes_header() {
    let out = encode_row(&sample_record(), 3, true);
    let expected = format!("{}5,1000,42,abc123,10,20,5,1,1700000000000,3\n", HEADER);
    assert_eq!(out, expected);
}

#[test]
fn header_once_over_three_calls() {
    let mut rec = sample_record();
    let mut file = String::from("leftover content from an earlier run\n");
    file = apply_write(&file, &rec, 3, true);
    rec.sequence_number = 1001;
    file = apply_write(&file, &rec, 7, false);
    rec.sequence_number = 1002;
    file = apply_write(&file, &rec, 0, false);
    let expected = format!(
        "{}5,1000,42,abc123,10,20,5,1,1700000000000,3\n\
         5,1001,42,abc123,10,20,5,1,1700000000000,7\n\
         5,1002,42,abc123,10,20,5,1,1700000000000,0\n",
        HEADER
    );
    assert_eq!(file, expected);
    assert_eq!(file.matches(HEADER.trim_end()).count(), 1);
    assert_eq!(file.lines().count(), 4);
}

#[test]
fn truncation_discards_prior_content() {
    let prior = "old header\nold row one\nold row two\n";
    let file = apply_write(prior, &sample_record(), 3, true);
    let expected = format!("{}5,1000,42,abc123,10,20,5,1,1700000000000,3\n", HEADER);
    assert_eq!(file, expected);
    assert!(!file.contains("old row"));
}

#[test]
fn append_preserves_prior_lines() {
    let prior = "line one\nline two\nline three\n";
    let file = apply_write(prior, &sample_record(), 9, false);
    assert!(file.starts_with(prior));
    assert_eq!(file.lines().count(), prior.lines().count() + 1);
    assert_eq!(
        &file[prior.len()..],
        "5,1000,42,abc123,10,20,5,1,1700000000000,9\n"
    );
}

#[test]
fn empty_digest_gives_empty_field() {
    let mut rec = sample_record();
    rec.content_digest = Vec::new();
    let row = encode_row(&rec, 1, false);
    assert_eq!(row, "5,1000,42,,10,20,5,1,1700000000000,1\n");
}

#[test]
fn digest_bytes_are_encoded_not_copied() {
    let mut rec = sample_record();
    rec.content_digest = vec![0, 0, 255];
    let row = encode_row(&rec, 1, false);
    // two leading zero bytes become two '1' characters
    assert_eq!(row, "5,1000,42,115Q,10,20,5,1,1700000000000,1\n");
}

#[test]
fn decimal_rendering_edges() {
    assert_eq!(u64_to_string(0), "0");
    assert_eq!(u64_to_string(7), "7");
    assert_eq!(u64_to_string(10), "10");
    assert_eq!(u64_to_string(u64::MAX), "18446744073709551615");
}

#[test]
fn matches_csv_writer_output() {
    // the row the library builds is what the csv crate itself writes
    let rec = sample_record();
    let row = encode_row(&rec, 3, false);
    let mut w = csv::Writer::from_writer(Vec::new());
    w.write_record(&[
        "5",
        "1000",
        "42",
        "abc123",
        "10",
        "20",
        "5",
        "1",
        "1700000000000",
        "3",
    ])
    .unwrap();
    let bytes = w.into_inner().unwrap();
    assert_eq!(row.as_bytes(), bytes.as_slice());
}
