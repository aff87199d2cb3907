//! CSV text in and out, through the `csv` crate.
//!
//! Reading and writing CSV is the `csv` crate's work. What it returns is
//! named here, not restated: `header_record` and `data_records` for the two
//! ways of reading a text, `written` for the records a writer has taken, and
//! `csv_text` for the text a writer gives back. Everything around those
//! calls is verified against these names.

use vstd::prelude::*;
use crate::error::PipelineError;
use crate::table::{uniform, Table, TableView};

verus! {

/// The error type of the `csv` crate. Nothing is known of a value of it.
#[verifier::external_type_specification]
#[verifier::external_body]
pub struct ExCsvError(csv::Error);

/// A writer of the `csv` crate over a byte vector. Nothing is known of a
/// value of it but what `written` says.
#[verifier::external_body]
pub struct RecordWriter {
    inner: csv::Writer<Vec<u8>>,
}

/// The first record of a CSV text, as `csv::Reader::headers` returns it from
/// a reader with default settings over that text: `None` where it returns an
/// error. For a text without any record it is a record without fields.
pub uninterp spec fn header_record(bytes: Seq<u8>) -> Option<Seq<Seq<char>>>;

/// The records of a CSV text after the first, as the iterator of
/// `csv::Reader::records` yields them from a reader with default settings
/// over that text: `None` where it yields an error.
pub uninterp spec fn data_records(bytes: Seq<u8>) -> Option<Seq<Seq<Seq<char>>>>;

/// The records that a writer has taken so far, in order.
pub uninterp spec fn written(writer: RecordWriter) -> Seq<Seq<Seq<char>>>;

/// The CSV text that `csv::Writer::into_inner` hands back from a writer with
/// default settings that has taken these records: `None` where it returns
/// an error.
pub uninterp spec fn csv_text(records: Seq<Seq<Seq<char>>>) -> Option<Seq<u8>>;

/// Calls `csv::Reader::headers` on a fresh reader (`csv::Reader::from_reader`)
/// over `bytes`. The contract only names the outcome: the fields of the first
/// record, or an error.
#[verifier::external_body]
fn read_headers(bytes: &[u8]) -> (r: Result<Vec<String>, csv::Error>)
    ensures
        match r {
            Ok(fields) => header_record(bytes@) == Some(fields.deep_view()),
            Err(_) => header_record(bytes@) is None,
        },
{
    let mut reader = csv::Reader::from_reader(bytes);
    let headers = reader.headers()?;
    Ok(headers.iter().map(String::from).collect())
}

/// Drains `csv::Reader::records` on a fresh reader (`csv::Reader::from_reader`)
/// over `bytes`. The contract only names the outcome: all records after the
/// first, or the first error.
#[verifier::external_body]
fn read_records(bytes: &[u8]) -> (r: Result<Vec<Vec<String>>, csv::Error>)
    ensures
        match r {
            Ok(rows) => data_records(bytes@) == Some(rows.deep_view()),
            Err(_) => data_records(bytes@) is None,
        },
{
    let mut reader = csv::Reader::from_reader(bytes);
    let records = reader.records().collect::<Result<Vec<csv::StringRecord>, csv::Error>>()?;
    Ok(records.iter().map(|record| record.iter().map(String::from).collect()).collect())
}

/// Calls `csv::WriterBuilder::from_writer` with default settings on an empty
/// byte vector. The new writer has taken no record.
#[verifier::external_body]
fn new_writer() -> (writer: RecordWriter)
    ensures
        written(writer) == Seq::<Seq<Seq<char>>>::empty(),
{
    RecordWriter { inner: csv::WriterBuilder::new().from_writer(Vec::new()) }
}

/// True when a writer that has taken `records` takes `row` as well: `row` is
/// the first record, or has as many fields as the first record had.
pub open spec fn writer_takes(records: Seq<Seq<Seq<char>>>, row: Seq<Seq<char>>) -> bool {
    records.len() == 0 || records[0].len() == row.len()
}

/// Calls `csv::Writer::write_record`. With default settings the writer
/// refuses a record whose number of fields differs from that of the first
/// record it took, and takes every other record; writing into a byte vector
/// adds no other failure. On an error the writer is dropped.
#[verifier::external_body]
fn write_record(writer: RecordWriter, row: &Vec<String>) -> (r: Result<RecordWriter, csv::Error>)
    ensures
        r is Ok <==> writer_takes(written(writer), row.deep_view()),
        r matches Ok(next) ==> written(next) == written(writer).push(row.deep_view()),
{
    let mut writer = writer;
    writer.inner.write_record(row)?;
    Ok(writer)
}

/// Calls `csv::Writer::into_inner`, which flushes the writer and hands back
/// the byte vector. The contract only names the outcome: the text of the
/// records taken, or an error.
#[verifier::external_body]
fn finish_writer(writer: RecordWriter) -> (r: Result<Vec<u8>, csv::Error>)
    ensures
        match r {
            Ok(bytes) => csv_text(written(writer)) == Some(bytes@),
            Err(_) => csv_text(written(writer)) is None,
        },
{
    writer.inner.into_inner().map_err(|e| csv::Error::from(e.into_error()))
}

/// Turns a failure of the `csv` crate into the library's own error. Every
/// such failure is a failure to read or write CSV data.
fn io_error(cause: csv::Error) -> (e: PipelineError)
    ensures
        e == PipelineError::Io,
{
    PipelineError::Io
}

/// The header row that is kept for a first record: none for a record
/// without fields, which stands for a text without any record.
pub open spec fn header_of(first: Seq<Seq<char>>) -> Option<Seq<Seq<char>>> {
    if first.len() == 0 {
        None
    } else {
        Some(first)
    }
}

/// The table that a CSV text holds, given what reading its first record and
/// what reading its other records gave.
pub open spec fn table_of(
    first: Option<Seq<Seq<char>>>,
    others: Option<Seq<Seq<Seq<char>>>>,
) -> Result<TableView, PipelineError> {
    match (first, others) {
        (Some(names), Some(rows)) => {
            let view = TableView { header: header_of(names), body: rows };
            if view.well_formed() {
                Ok(view)
            } else {
                Err(PipelineError::Schema)
            }
        },
        _ => Err(PipelineError::Io),
    }
}

/// The CSV text for a run of records, given what the writer hands back for
/// them: an error where the records disagree in field count or the writer
/// fails.
pub open spec fn text_of(records: Seq<Seq<Seq<char>>>) -> Result<Seq<u8>, PipelineError> {
    if uniform(records) {
        match csv_text(records) {
            Some(bytes) => Ok(bytes),
            None => Err(PipelineError::Io),
        }
    } else {
        Err(PipelineError::Io)
    }
}

/// Reads the header row of a CSV text. Fails with `PipelineError::Io` where
/// the text cannot be read.
pub fn read_header(bytes: &[u8]) -> (r: Result<Vec<String>, PipelineError>)
    ensures
        match r {
            Ok(names) => header_record(bytes@) == Some(names.deep_view()),
            Err(e) => e == PipelineError::Io && header_record(bytes@) is None,
        },
{
    match read_headers(bytes) {
        Ok(names) => Ok(names),
        Err(cause) => Err(io_error(cause)),
    }
}

/// Reads the data rows of a CSV text: every record but the first. Fails
/// with `PipelineError::Io` where the text cannot be read.
pub fn read_body(bytes: &[u8]) -> (r: Result<Vec<Vec<String>>, PipelineError>)
    ensures
        match r {
            Ok(rows) => data_records(bytes@) == Some(rows.deep_view()),
            Err(e) => e == PipelineError::Io && data_records(bytes@) is None,
        },
{
    match read_records(bytes) {
        Ok(rows) => Ok(rows),
        Err(cause) => Err(io_error(cause)),
    }
}

/// Builds the table that a CSV text holds from its first record and its
/// other records. A first record without fields means that the text has no
/// header row.
pub fn table_from_records(first: Vec<String>, others: Vec<Vec<String>>) -> (r: Result<
    Table,
    PipelineError,
>)
    ensures
        match r {
            Ok(table) => table_of(Some(first.deep_view()), Some(others.deep_view())) == Ok::<
                TableView,
                PipelineError,
            >(table@),
            Err(e) => table_of(Some(first.deep_view()), Some(others.deep_view())) == Err::<
                TableView,
                PipelineError,
            >(e),
        },
{
    let header = if first.len() == 0 {
        None
    } else {
        Some(first)
    };
    assert(header.deep_view() == header_of(first.deep_view()));
    Table::new(header, others)
}

/// Reads a CSV text as a table: the first record is the header row, the
/// others are the body. Fails with `PipelineError::Io` where the text cannot
/// be read, and with `PipelineError::Schema` where its rows disagree in field
/// count.
pub fn read_table(bytes: &[u8]) -> (r: Result<Table, PipelineError>)
    ensures
        match r {
            Ok(table) => table_of(header_record(bytes@), data_records(bytes@)) == Ok::<
                TableView,
                PipelineError,
            >(table@),
            Err(e) => table_of(header_record(bytes@), data_records(bytes@)) == Err::<
                TableView,
                PipelineError,
            >(e),
        },
{
    let others = match read_body(bytes) {
        Ok(rows) => rows,
        Err(e) => {
            return Err(e);
        },
    };
    let first = match read_header(bytes) {
        Ok(names) => names,
        Err(e) => {
            return Err(e);
        },
    };
    table_from_records(first, others)
}

/// Writes records as CSV text, one record after the other. Fails with
/// `PipelineError::Io` where a record has another number of fields than the
/// first, or where the writer fails.
pub fn write_rows(rows: &Vec<Vec<String>>) -> (r: Result<Vec<u8>, PipelineError>)
    ensures
        match r {
            Ok(bytes) => text_of(rows.deep_view()) == Ok::<Seq<u8>, PipelineError>(bytes@),
            Err(e) => text_of(rows.deep_view()) == Err::<Seq<u8>, PipelineError>(e),
        },
{
    let ghost records = rows.deep_view();
    let mut writer = new_writer();
    let mut i: usize = 0;
    while i < rows.len()
        invariant
            i <= rows.len(),
            records == rows.deep_view(),
            written(writer) == records.subrange(0, i as int),
            uniform(records.subrange(0, i as int)),
        decreases rows.len() - i,
    {
        let ghost before = records.subrange(0, i as int);
        let ghost after = records.subrange(0, i + 1);
        assert(records[i as int] == rows[i as int].deep_view());
        assert(after =~= before.push(records[i as int]));
        match write_record(writer, &rows[i]) {
            Ok(next) => {
                writer = next;
                assert(uniform(after)) by {
                    assert forall|k: int| 0 <= k < after.len() implies (#[trigger] after[k]).len()
                        == after[0].len() by {
                        if k < i {
                            assert(before[k].len() == before[0].len());
                        }
                    }
                }
            },
            Err(cause) => {
                assert(!uniform(records)) by {
                    assert(before[0] == records[0]);
                    assert(records[i as int].len() != records[0].len());
                }
                return Err(io_error(cause));
            },
        }
        i = i + 1;
    }
    assert(records.subrange(0, i as int) =~= records);
    match finish_writer(writer) {
        Ok(bytes) => Ok(bytes),
        Err(cause) => Err(io_error(cause)),
    }
}

/// Writes a table as CSV text: the header row, when there is one, then the
/// body.
pub fn write_table(table: &Table) -> (r: Result<Vec<u8>, PipelineError>)
    ensures
        match r {
            Ok(bytes) => text_of(table@.rows()) == Ok::<Seq<u8>, PipelineError>(bytes@),
            Err(e) => text_of(table@.rows()) == Err::<Seq<u8>, PipelineError>(e),
        },
{
    let rows = table.rows();
    write_rows(&rows)
}

} // verus!
