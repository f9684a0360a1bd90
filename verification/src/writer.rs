//! The CSV append writer: the header row, the data row derived from a
//! checkpoint summary, and the effect of one call on the destination file.
//!
//! A call either replaces the file's contents with a header row and one
//! data row (first call), or appends one data row (every later call). The
//! functions here produce exactly that text; the surrounding program only
//! copies it into the file.

use vstd::prelude::*;

use crate::encoding::base58_of;
use crate::encoding::base58_string;
use crate::encoding::dec_str;
use crate::encoding::is_base58_char;
use crate::encoding::is_dec_digit;
use crate::encoding::lemma_dec_str_digits;
use crate::encoding::u64_to_string;
use crate::record::CheckpointSummaryRecord;

verus! {

/// A character that a CSV writer passes through verbatim: neither the
/// delimiter, nor the quote, nor part of a record terminator.
pub open spec fn plain_char(c: char) -> bool {
    c != ',' && c != '"' && c != '\n' && c != '\r'
}

/// A field written verbatim, without quoting.
pub open spec fn plain_field(f: Seq<char>) -> bool {
    forall|i: int| 0 <= i < f.len() ==> plain_char(#[trigger] f[i])
}

/// The fields of a record joined by the comma delimiter.
pub open spec fn join_fields(fields: Seq<Seq<char>>) -> Seq<char>
    decreases fields.len(),
{
    if fields.len() == 0 {
        Seq::empty()
    } else if fields.len() == 1 {
        fields[0]
    } else {
        fields[0] + seq![','] + join_fields(fields.drop_first())
    }
}

/// One CSV record of plain fields: the fields joined by commas, then the
/// newline terminator.
pub open spec fn csv_line(fields: Seq<Seq<char>>) -> Seq<char> {
    join_fields(fields) + seq!['\n']
}

/// The ten column names, in the order the header row carries them.
pub open spec fn header_fields() -> Seq<Seq<char>> {
    seq![
        "epoch"@,
        "sequence_number"@,
        "network_total_transactions"@,
        "content_digest"@,
        "computation_cost"@,
        "storage_cost"@,
        "storage_rebate"@,
        "non_refundable_storage_fee"@,
        "timestamp_ms"@,
        "transactions"@,
    ]
}

/// The header row, terminator included.
pub open spec fn header_line() -> Seq<char> {
    csv_line(header_fields())
}

/// The ten field values of one data row, in column order: the integer
/// fields in decimal, the content digest in base58, and the caller's
/// transaction count last.
pub open spec fn row_fields(s: CheckpointSummaryRecord, transactions: nat) -> Seq<Seq<char>> {
    seq![
        dec_str(s.epoch as nat),
        dec_str(s.sequence_number as nat),
        dec_str(s.network_total_transactions as nat),
        base58_of(s.content_digest@),
        dec_str(s.epoch_rolling_gas_cost_summary.computation_cost as nat),
        dec_str(s.epoch_rolling_gas_cost_summary.storage_cost as nat),
        dec_str(s.epoch_rolling_gas_cost_summary.storage_rebate as nat),
        dec_str(s.epoch_rolling_gas_cost_summary.non_refundable_storage_fee as nat),
        dec_str(s.timestamp_ms as nat),
        dec_str(transactions),
    ]
}

/// The data row of one checkpoint summary, terminator included.
pub open spec fn data_line(s: CheckpointSummaryRecord, transactions: nat) -> Seq<char> {
    csv_line(row_fields(s, transactions))
}

/// The text one call produces: the data row, preceded by the header row on
/// the first call.
pub open spec fn output_for(s: CheckpointSummaryRecord, transactions: nat, is_first_row: bool) -> Seq<
    char,
> {
    if is_first_row {
        header_line() + data_line(s, transactions)
    } else {
        data_line(s, transactions)
    }
}

/// The file's contents after one call: the first call truncates, so its
/// output replaces whatever was there; a later call appends its row.
pub open spec fn file_after(
    prior: Seq<char>,
    s: CheckpointSummaryRecord,
    transactions: nat,
    is_first_row: bool,
) -> Seq<char> {
    if is_first_row {
        header_line() + data_line(s, transactions)
    } else {
        prior + data_line(s, transactions)
    }
}

/// How many newline characters, and so how many terminated lines, a text
/// holds.
pub open spec fn newline_count(s: Seq<char>) -> nat
    decreases s.len(),
{
    if s.len() == 0 {
        0
    } else {
        (if s[0] == '\n' {
            1nat
        } else {
            0nat
        }) + newline_count(s.drop_first())
    }
}

/// Newline counts add over concatenation.
pub proof fn lemma_newline_count_concat(a: Seq<char>, b: Seq<char>)
    ensures
        newline_count(a + b) == newline_count(a) + newline_count(b),
    decreases a.len(),
{
    if a.len() == 0 {
        assert(a + b =~= b);
    } else {
        assert((a + b).drop_first() =~= a.drop_first() + b);
        lemma_newline_count_concat(a.drop_first(), b);
    }
}

/// A plain field holds no newline.
proof fn lemma_plain_field_no_newline(f: Seq<char>)
    requires
        plain_field(f),
    ensures
        newline_count(f) == 0,
    decreases f.len(),
{
    if f.len() > 0 {
        lemma_plain_field_no_newline(f.drop_first());
    }
}

/// A record of plain fields makes exactly one line: its only newline is
/// the terminator.
pub proof fn lemma_csv_line_newlines(fields: Seq<Seq<char>>)
    requires
        forall|i: int| 0 <= i < fields.len() ==> plain_field(#[trigger] fields[i]),
    ensures
        newline_count(csv_line(fields)) == 1,
        newline_count(join_fields(fields)) == 0,
    decreases fields.len(),
{
    if fields.len() == 0 {
        assert(newline_count(Seq::<char>::empty()) == 0);
    } else if fields.len() == 1 {
        lemma_plain_field_no_newline(fields[0]);
    } else {
        lemma_plain_field_no_newline(fields[0]);
        assert forall|i: int| 0 <= i < fields.drop_first().len() implies plain_field(
            #[trigger] fields.drop_first()[i],
        ) by {
            assert(fields.drop_first()[i] == fields[i + 1]);
        }
        lemma_csv_line_newlines(fields.drop_first());
        lemma_newline_count_concat(fields[0], seq![',']);
        lemma_newline_count_concat(fields[0] + seq![','], join_fields(fields.drop_first()));
        assert(newline_count(seq![',']) == 0) by {
            let s = seq![','];
            assert(s.drop_first() =~= Seq::<char>::empty());
            assert(newline_count(Seq::<char>::empty()) == 0);
            assert(s[0] == ',');
        }
    }
    lemma_newline_count_concat(join_fields(fields), seq!['\n']);
    assert(newline_count(seq!['\n']) == 1) by {
        let s = seq!['\n'];
        assert(s.drop_first() =~= Seq::<char>::empty());
        assert(newline_count(Seq::<char>::empty()) == 0);
        assert(s[0] == '\n');
    }
}

/// Relies on csv's `Writer::write_record` in its default configuration
/// (comma delimiter, `\n` terminator, quoting only where needed): fields
/// that hold none of `,`, `"`, CR and LF are written verbatim, joined by
/// the delimiter, and the record ends with the terminator. A lone empty
/// field would be quoted, so at least two fields are required.
#[verifier::external_body]
fn csv_record_line(fields: &Vec<String>) -> (r: String)
    requires
        fields@.len() >= 2,
        forall|i: int| 0 <= i < fields@.len() ==> plain_field(#[trigger] fields@[i]@),
    ensures
        r@ == csv_line(fields@.map_values(|f: String| f@)),
{
    let mut w = csv::Writer::from_writer(Vec::new());
    w.write_record(fields.iter()).unwrap();
    String::from_utf8(w.into_inner().unwrap()).unwrap()
}

/// A decimal digit passes through a CSV writer verbatim.
proof fn lemma_digit_plain(c: char)
    requires
        is_dec_digit(c),
    ensures
        plain_char(c),
{
}

/// A base58 character passes through a CSV writer verbatim.
proof fn lemma_base58_plain(c: char)
    requires
        is_base58_char(c),
    ensures
        plain_char(c),
{
}

/// A decimal rendering is a plain field.
proof fn lemma_dec_str_plain(n: nat)
    ensures
        plain_field(dec_str(n)),
{
    lemma_dec_str_digits(n);
    assert forall|i: int| 0 <= i < dec_str(n).len() implies plain_char(
        #[trigger] dec_str(n)[i],
    ) by {
        lemma_digit_plain(dec_str(n)[i]);
    }
}

/// The ten field values of one data row, in column order.
fn data_fields(summary: &CheckpointSummaryRecord, transactions: usize) -> (r: Vec<String>)
    ensures
        r@.map_values(|f: String| f@) == row_fields(*summary, transactions as nat),
        forall|i: int| 0 <= i < r@.len() ==> plain_field(#[trigger] r@[i]@),
        r@.len() == 10,
{
    let gas = &summary.epoch_rolling_gas_cost_summary;
    let digest = base58_string(&summary.content_digest);
    let mut r: Vec<String> = Vec::new();
    r.push(u64_to_string(summary.epoch));
    r.push(u64_to_string(summary.sequence_number));
    r.push(u64_to_string(summary.network_total_transactions));
    r.push(digest);
    r.push(u64_to_string(gas.computation_cost));
    r.push(u64_to_string(gas.storage_cost));
    r.push(u64_to_string(gas.storage_rebate));
    r.push(u64_to_string(gas.non_refundable_storage_fee));
    r.push(u64_to_string(summary.timestamp_ms));
    r.push(u64_to_string(transactions as u64));
    proof {
        assert(r@.map_values(|f: String| f@) =~= row_fields(*summary, transactions as nat));
        assert forall|i: int| 0 <= i < r@.len() implies plain_field(#[trigger] r@[i]@) by {
            let fs = row_fields(*summary, transactions as nat);
            assert(r@[i]@ == fs[i]);
            if i == 3 {
                assert forall|j: int| 0 <= j < fs[3].len() implies plain_char(
                    #[trigger] fs[3][j],
                ) by {
                    lemma_base58_plain(fs[3][j]);
                }
            } else if i == 0 {
                lemma_dec_str_plain(summary.epoch as nat);
            } else if i == 1 {
                lemma_dec_str_plain(summary.sequence_number as nat);
            } else if i == 2 {
                lemma_dec_str_plain(summary.network_total_transactions as nat);
            } else if i == 4 {
                lemma_dec_str_plain(summary.epoch_rolling_gas_cost_summary.computation_cost as nat);
            } else if i == 5 {
                lemma_dec_str_plain(summary.epoch_rolling_gas_cost_summary.storage_cost as nat);
            } else if i == 6 {
                lemma_dec_str_plain(summary.epoch_rolling_gas_cost_summary.storage_rebate as nat);
            } else if i == 7 {
                lemma_dec_str_plain(
                    summary.epoch_rolling_gas_cost_summary.non_refundable_storage_fee as nat,
                );
            } else if i == 8 {
                lemma_dec_str_plain(summary.timestamp_ms as nat);
            } else {
                lemma_dec_str_plain(transactions as nat);
            }
        }
    }
    r
}

/// The ten column names of the header row, in order.
fn header_row_fields() -> (r: Vec<String>)
    ensures
        r@.map_values(|f: String| f@) == header_fields(),
        forall|i: int| 0 <= i < r@.len() ==> plain_field(#[trigger] r@[i]@),
        r@.len() == 10,
{
    proof {
        reveal_strlit("epoch");
        reveal_strlit("sequence_number");
        reveal_strlit("network_total_transactions");
        reveal_strlit("content_digest");
        reveal_strlit("computation_cost");
        reveal_strlit("storage_cost");
        reveal_strlit("storage_rebate");
        reveal_strlit("non_refundable_storage_fee");
        reveal_strlit("timestamp_ms");
        reveal_strlit("transactions");
    }
    let mut r: Vec<String> = Vec::new();
    r.push("epoch".to_owned());
    r.push("sequence_number".to_owned());
    r.push("network_total_transactions".to_owned());
    r.push("content_digest".to_owned());
    r.push("computation_cost".to_owned());
    r.push("storage_cost".to_owned());
    r.push("storage_rebate".to_owned());
    r.push("non_refundable_storage_fee".to_owned());
    r.push("timestamp_ms".to_owned());
    r.push("transactions".to_owned());
    proof {
        assert(r@.map_values(|f: String| f@) =~= header_fields());
        assert forall|i: int| 0 <= i < r@.len() implies plain_field(#[trigger] r@[i]@) by {
            assert(plain_field(header_fields()[i]));
        }
    }
    r
}

/// Builds the text of one call: the data row of `summary`, preceded by the
/// header row when `is_first_row` is set. The result is exactly what the
/// call puts into the file, and it holds one newline per row.
pub fn encode_row(summary: &CheckpointSummaryRecord, transactions: usize, is_first_row: bool) -> (r:
    String)
    ensures
        r@ == output_for(*summary, transactions as nat, is_first_row),
        newline_count(r@) == if is_first_row {
            2nat
        } else {
            1nat
        },
{
    let fields = data_fields(summary, transactions);
    let data = csv_record_line(&fields);
    proof {
        lemma_csv_line_newlines(row_fields(*summary, transactions as nat));
    }
    if is_first_row {
        let hfields = header_row_fields();
        let header = csv_record_line(&hfields);
        proof {
            lemma_csv_line_newlines(header_fields());
            lemma_newline_count_concat(header_line(), data_line(*summary, transactions as nat));
        }
        header.concat(data.as_str())
    } else {
        data
    }
}

/// The effect of one call on the destination file, on an in-memory copy of
/// its contents: the first call replaces them with header and data row, a
/// later call appends its data row, leaving the prior text untouched.
pub fn apply_write(
    prior: &str,
    summary: &CheckpointSummaryRecord,
    transactions: usize,
    is_first_row: bool,
) -> (r: String)
    ensures
        r@ == file_after(prior@, *summary, transactions as nat, is_first_row),
        !is_first_row ==> r@.subrange(0, prior@.len() as int) == prior@,
        newline_count(r@) == if is_first_row {
            2nat
        } else {
            newline_count(prior@) + 1nat
        },
{
    let row = encode_row(summary, transactions, is_first_row);
    if is_first_row {
        row
    } else {
        let mut r = prior.to_owned();
        r.append(row.as_str());
        proof {
            assert(r@.subrange(0, prior@.len() as int) =~= prior@);
            lemma_newline_count_concat(prior@, row@);
        }
        r
    }
}

/// The text that the data rows of a sequence of calls make, one row per
/// call, in call order. Each call is a summary paired with its transaction
/// count.
pub open spec fn data_lines(rows: Seq<(CheckpointSummaryRecord, nat)>) -> Seq<char>
    decreases rows.len(),
{
    if rows.len() == 0 {
        Seq::empty()
    } else {
        data_line(rows[0].0, rows[0].1) + data_lines(rows.drop_first())
    }
}

/// The file's contents after a sequence of calls: the first call is made
/// with `is_first_row` as given, every later call with it false.
pub open spec fn file_after_calls(
    prior: Seq<char>,
    rows: Seq<(CheckpointSummaryRecord, nat)>,
    is_first_row: bool,
) -> Seq<char>
    decreases rows.len(),
{
    if rows.len() == 0 {
        prior
    } else {
        file_after_calls(
            file_after(prior, rows[0].0, rows[0].1, is_first_row),
            rows.drop_first(),
            false,
        )
    }
}

/// Append law: a run of calls that never asks for the header leaves the
/// prior contents in place and adds exactly its data rows, in call order.
pub proof fn lemma_append_calls(prior: Seq<char>, rows: Seq<(CheckpointSummaryRecord, nat)>)
    ensures
        file_after_calls(prior, rows, false) == prior + data_lines(rows),
    decreases rows.len(),
{
    if rows.len() == 0 {
        assert(prior + Seq::<char>::empty() =~= prior);
    } else {
        let line = data_line(rows[0].0, rows[0].1);
        lemma_append_calls(prior + line, rows.drop_first());
        assert((prior + line) + data_lines(rows.drop_first()) =~= prior + (line + data_lines(
            rows.drop_first(),
        )));
    }
}

/// Header-once law: a run of calls whose first call alone asks for the
/// header leaves the file holding exactly one header row followed by one
/// data row per call, in call order — whatever the file held before.
pub proof fn lemma_header_once(prior: Seq<char>, rows: Seq<(CheckpointSummaryRecord, nat)>)
    requires
        rows.len() >= 1,
    ensures
        file_after_calls(prior, rows, true) == header_line() + data_lines(rows),
{
    let line = data_line(rows[0].0, rows[0].1);
    lemma_append_calls(header_line() + line, rows.drop_first());
    assert((header_line() + line) + data_lines(rows.drop_first()) =~= header_line() + (line
        + data_lines(rows.drop_first())));
}

/// Append law, for one call: a call without the header flag leaves the
/// prior contents in place, byte for byte, and what follows them is
/// exactly the one new data row.
pub proof fn lemma_append(prior: Seq<char>, s: CheckpointSummaryRecord, transactions: nat)
    ensures
        file_after(prior, s, transactions, false).subrange(0, prior.len() as int) == prior,
        file_after(prior, s, transactions, false).skip(prior.len() as int) == data_line(
            s,
            transactions,
        ),
{
    assert(file_after(prior, s, transactions, false).subrange(0, prior.len() as int) =~= prior);
    assert(file_after(prior, s, transactions, false).skip(prior.len() as int) =~= data_line(
        s,
        transactions,
    ));
}

/// Truncation law: a first-row call discards the prior contents — the
/// resulting file is the same whatever the file held before the call.
pub proof fn lemma_truncation(
    prior1: Seq<char>,
    prior2: Seq<char>,
    s: CheckpointSummaryRecord,
    transactions: nat,
)
    ensures
        file_after(prior1, s, transactions, true) == file_after(prior2, s, transactions, true),
{
}

} // verus!
