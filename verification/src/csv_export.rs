//! The CSV report: a header row and one row per record. The rows are built
//! here; the `csv` crate turns each of them into bytes.

use vstd::prelude::*;
use vstd::string::StringExecFns;
use crate::analyzer::WPHooksAnalyzer;
use crate::decimal::{decimal, decimal_of};
use crate::record::{records_of, MatchRecord, MatchResult};
use crate::text::{string_of, texts_of};

verus! {

/// The error type of the `csv` crate.
#[verifier::external_type_specification]
#[verifier::external_body]
pub struct ExCsvError(csv::Error);

/// The bytes that `csv::Writer::write_record` writes for a record with the
/// given fields, on a writer in its default configuration.
pub uninterp spec fn csv_record_bytes(fields: Seq<Seq<char>>) -> Seq<u8>;

/// Writes `fields` as one record with `csv::Writer::write_record`, on a
/// default writer over an empty byte vector, and hands out the bytes that the
/// writer holds after `into_inner`. The call succeeds: the writer can fail
/// only where its sink fails or where a record differs in length from the
/// first one written, and here the sink is a byte vector and the record is
/// the first.
#[verifier::external_body]
pub(crate) fn encode_record(fields: &Vec<String>) -> (encoded: Result<Vec<u8>, csv::Error>)
    ensures
        encoded is Ok,
        encoded matches Ok(bytes) ==> bytes@ == csv_record_bytes(texts_of(fields@)),
{
    let mut writer = csv::WriterBuilder::new().from_writer(Vec::new());
    match writer.write_record(fields) {
        Ok(()) => match writer.into_inner() {
            Ok(bytes) => Ok(bytes),
            Err(e) => Err(csv::Error::from(e.into_error())),
        },
        Err(e) => Err(e),
    }
}

/// A row that could not be turned into bytes.
#[derive(Debug, Clone, Copy, PartialEq, Eq, Structural)]
pub struct ExportError {
    /// The index of the row in the table, the header being row 0.
    pub row: usize,
}

/// The column names, in the order of the columns.
pub open spec fn csv_header() -> Seq<Seq<char>> {
    seq![
        "project_name"@,
        "category"@,
        "function"@,
        "function_type"@,
        "hook_name"@,
        "file_path"@,
        "line_number"@,
        "original_line"@,
        "highlighted_line"@,
    ]
}

/// The row of one record: the project name, then the fields of the record,
/// the line number in decimal.
pub open spec fn csv_row(project_name: Seq<char>, r: MatchRecord) -> Seq<Seq<char>> {
    seq![
        project_name,
        r.category,
        r.function,
        r.function_type,
        r.hook_name,
        r.file_path,
        decimal(r.line_number),
        r.original_line,
        r.highlighted_line,
    ]
}

/// The table of a report: the header, then one row per record in the order
/// of the records.
pub open spec fn csv_rows(project_name: Seq<char>, records: Seq<MatchRecord>) -> Seq<
    Seq<Seq<char>>,
> {
    seq![csv_header()] + records.map_values(|r: MatchRecord| csv_row(project_name, r))
}

/// The bytes of the first `n` rows of a table, row after row.
pub open spec fn csv_bytes_among(rows: Seq<Seq<Seq<char>>>, n: int) -> Seq<u8>
    decreases n,
{
    if n <= 0 {
        Seq::empty()
    } else {
        csv_bytes_among(rows, n - 1) + csv_record_bytes(rows[n - 1])
    }
}

/// The bytes of a table.
pub open spec fn csv_bytes(rows: Seq<Seq<Seq<char>>>) -> Seq<u8> {
    csv_bytes_among(rows, rows.len() as int)
}

/// The views of the rows of a table.
pub open spec fn table_of(rows: Seq<Vec<String>>) -> Seq<Seq<Seq<char>>> {
    rows.map_values(|row: Vec<String>| texts_of(row@))
}

/// Builds the header row.
pub fn header_row() -> (row: Vec<String>)
    ensures
        texts_of(row@) == csv_header(),
{
    let mut row: Vec<String> = Vec::new();
    row.push(String::from_str("project_name"));
    row.push(String::from_str("category"));
    row.push(String::from_str("function"));
    row.push(String::from_str("function_type"));
    row.push(String::from_str("hook_name"));
    row.push(String::from_str("file_path"));
    row.push(String::from_str("line_number"));
    row.push(String::from_str("original_line"));
    row.push(String::from_str("highlighted_line"));
    assert(texts_of(row@) =~= csv_header());
    row
}

/// Builds the row of one record.
pub fn record_row(project_name: &str, r: &MatchResult) -> (row: Vec<String>)
    ensures
        texts_of(row@) == csv_row(project_name@, r@),
{
    let mut row: Vec<String> = Vec::new();
    row.push(String::from_str(project_name));
    row.push(r.category.clone());
    row.push(r.function.clone());
    row.push(r.function_type.clone());
    row.push(r.hook_name.clone());
    row.push(r.file_path.clone());
    row.push(string_of(&decimal_of(r.line_number)));
    row.push(r.original_line.clone());
    row.push(r.highlighted_line.clone());
    assert(texts_of(row@) =~= csv_row(project_name@, r@));
    row
}

/// Builds the table of a report.
pub fn csv_table(results: &[MatchResult], project_name: &str) -> (rows: Vec<Vec<String>>)
    ensures
        table_of(rows@) == csv_rows(project_name@, records_of(results@)),
{
    let ghost wanted = csv_rows(project_name@, records_of(results@));
    let mut rows: Vec<Vec<String>> = Vec::new();
    rows.push(header_row());
    let mut i: usize = 0;
    assert(table_of(rows@) =~= wanted.take(1));
    while i < results.len()
        invariant
            i <= results.len(),
            wanted == csv_rows(project_name@, records_of(results@)),
            table_of(rows@) == wanted.take(i + 1),
        decreases results.len() - i,
    {
        let row = record_row(project_name, &results[i]);
        proof {
            assert(wanted[i + 1] == csv_row(project_name@, results[i as int]@));
            assert(table_of(rows@.push(row)) =~= table_of(rows@).push(texts_of(row@)));
            assert(wanted.take(i + 2) =~= wanted.take(i + 1).push(wanted[i + 1]));
        }
        rows.push(row);
        i += 1;
    }
    assert(wanted.take(results.len() + 1) =~= wanted);
    rows
}

/// Takes what the encoding of row `row` gave: appends the bytes to `out`, or
/// reports the row and leaves `out` as it is.
pub fn append_encoded(out: &mut Vec<u8>, row: usize, encoded: Result<Vec<u8>, csv::Error>) -> (done:
    Result<(), ExportError>)
    ensures
        match encoded {
            Ok(bytes) => done is Ok && final(out)@ == old(out)@ + bytes@,
            Err(_) => done == Err::<(), ExportError>(ExportError { row }) && final(out)@ == old(
                out,
            )@,
        },
{
    match encoded {
        Ok(bytes) => {
            let mut bytes = bytes;
            out.append(&mut bytes);
            Ok(())
        },
        Err(_) => Err(ExportError { row }),
    }
}

/// Turns a table into bytes, row after row. Each row is encoded by itself,
/// so the rows need not be of one length.
pub fn encode_table(rows: &Vec<Vec<String>>) -> (encoded: Result<Vec<u8>, ExportError>)
    ensures
        encoded is Ok,
        encoded matches Ok(bytes) ==> bytes@ == csv_bytes(table_of(rows@)),
{
    let ghost table = table_of(rows@);
    let mut out: Vec<u8> = Vec::new();
    let mut i: usize = 0;
    assert(out@ =~= csv_bytes_among(table, 0));
    while i < rows.len()
        invariant
            i <= rows.len(),
            table == table_of(rows@),
            out@ == csv_bytes_among(table, i as int),
        decreases rows.len() - i,
    {
        assert(table[i as int] == texts_of(rows[i as int]@));
        let encoded = encode_record(&rows[i]);
        match append_encoded(&mut out, i, encoded) {
            Ok(()) => {},
            Err(e) => {
                return Err(e);
            },
        }
        i += 1;
    }
    Ok(out)
}

impl WPHooksAnalyzer {
    /// Renders the CSV report of `results`: the header row and one row per
    /// record, each starting with `project_name`. The report is always
    /// rendered.
    pub fn export_csv(&self, results: &[MatchResult], project_name: &str) -> (report: Result<
        Vec<u8>,
        ExportError,
    >)
        ensures
            report is Ok,
            report matches Ok(bytes) ==> bytes@ == csv_bytes(
                csv_rows(project_name@, records_of(results@)),
            ),
    {
        let rows = csv_table(results, project_name);
        encode_table(&rows)
    }
}

} // verus!
