//! The row-set merger.
//!
//! The merged output has the body of the first table followed by the body
//! of the second, never interleaved. The header row of the first table is
//! always written first; the header row of the second table is written
//! after it only where the caller asks for it, which a run does on the
//! primary rank alone. A table without header row has a row without fields
//! written in its place.
//!
//! The two bodies are put together by `rayon`'s thread pool; the rows are
//! then written one after the other.

use vstd::prelude::*;
use rayon::iter::{IntoParallelIterator, ParallelIterator};
use crate::codec::{data_records, header_record, read_body, read_header, text_of, write_rows};
use crate::error::PipelineError;
use crate::job::{output_name, output_name_text, JobMode};
use crate::table::{Table, TableView};

verus! {

/// What a merged table holds.
pub struct MergedView {
    /// The header rows, in the order in which they are written.
    pub headers: Seq<Seq<Seq<char>>>,
    /// The data rows, in order.
    pub body: Seq<Seq<Seq<char>>>,
}

impl MergedView {
    /// The rows in the order in which they are written: the header rows,
    /// then the body.
    pub open spec fn rows(self) -> Seq<Seq<Seq<char>>> {
        self.headers + self.body
    }
}

/// The output of the merger: one or two header rows and a body.
#[derive(Debug)]
pub struct MergedTable {
    /// The header rows, in the order in which they are written.
    pub headers: Vec<Vec<String>>,
    /// The data rows, in order.
    pub body: Vec<Vec<String>>,
}

impl View for MergedTable {
    type V = MergedView;

    open spec fn view(&self) -> MergedView {
        MergedView { headers: self.headers.deep_view(), body: self.body.deep_view() }
    }
}

/// The header rows of a merged output: the first table's, and after it the
/// second table's where it is asked for.
pub open spec fn merged_headers(first: Seq<Seq<char>>, second: Option<Seq<Seq<char>>>) -> Seq<
    Seq<Seq<char>>,
> {
    match second {
        Some(names) => seq![first, names],
        None => seq![first],
    }
}

/// The second table's header row where it is to be written.
pub open spec fn secondary_header(second: TableView, write_secondary_header: bool) -> Option<
    Seq<Seq<char>>,
> {
    if write_secondary_header {
        Some(second.header_row())
    } else {
        None
    }
}

/// The merged output of two tables.
pub open spec fn merge_of(first: TableView, second: TableView, write_secondary_header: bool) -> MergedView {
    MergedView {
        headers: merged_headers(
            first.header_row(),
            secondary_header(second, write_secondary_header),
        ),
        body: first.body + second.body,
    }
}

/// Puts two bodies together with `rayon`: `into_par_iter` on both, `chain`,
/// and `collect` into a vector. As `rayon` documents these, the vector holds
/// the rows of the first body in their order, then the rows of the second in
/// theirs.
#[verifier::external_body]
fn chain_in_parallel(first: Vec<Vec<String>>, second: Vec<Vec<String>>) -> (all: Vec<Vec<String>>)
    ensures
        all.deep_view() == first.deep_view() + second.deep_view(),
{
    first.into_par_iter().chain(second.into_par_iter()).collect()
}

/// Merges two tables given as their parts. `second_header` is the header
/// row of the second table where it is to be written, and `None` where it
/// is not.
pub fn merge_rows(
    first_header: Vec<String>,
    first_body: Vec<Vec<String>>,
    second_header: Option<Vec<String>>,
    second_body: Vec<Vec<String>>,
) -> (out: MergedTable)
    ensures
        out@.headers == merged_headers(first_header.deep_view(), second_header.deep_view()),
        out@.body == first_body.deep_view() + second_body.deep_view(),
{
    let mut headers: Vec<Vec<String>> = Vec::new();
    headers.push(first_header);
    match second_header {
        Some(names) => {
            headers.push(names);
        },
        None => {},
    }
    assert(headers.deep_view() =~= merged_headers(
        first_header.deep_view(),
        second_header.deep_view(),
    ));
    let body = chain_in_parallel(first_body, second_body);
    MergedTable { headers, body }
}

/// The row-set merger. The output's body is the first table's body followed
/// by the second table's body. Its first header row is the first table's;
/// the second table's header row follows it if and only if
/// `write_secondary_header` is set.
pub fn merge(first: Table, second: Table, write_secondary_header: bool) -> (out: MergedTable)
    ensures
        out@ == merge_of(first@, second@, write_secondary_header),
        out@.body == first@.body + second@.body,
        out@.headers.len() >= 1,
        out@.headers[0] == first@.header_row(),
        out@.headers.len() == 2 <==> write_secondary_header,
        out@.headers.len() == 1 <==> !write_secondary_header,
        write_secondary_header ==> out@.headers[1] == second@.header_row(),
{
    let first_header = first.header_row();
    let second_header = if write_secondary_header {
        Some(second.header_row())
    } else {
        None
    };
    let (_, first_body) = first.into_parts();
    let (_, second_body) = second.into_parts();
    merge_rows(first_header, first_body, second_header, second_body)
}

/// Idempotence. Merging the same two tables under the same header policy
/// gives the same output every time, row for row, and so the same text.
pub proof fn law_merge_is_repeatable(
    first: TableView,
    second: TableView,
    write_secondary_header: bool,
    once: MergedView,
    again: MergedView,
)
    requires
        once == merge_of(first, second, write_secondary_header),
        again == merge_of(first, second, write_secondary_header),
    ensures
        once == again,
        once.rows() == again.rows(),
        text_of(once.rows()) == text_of(again.rows()),
{
}

/// Concatenation order. In the rows of a merged output the header rows come
/// first, then every row of the first body in its order, then every row of
/// the second body in its order.
pub proof fn law_merge_order(first: TableView, second: TableView, write_secondary_header: bool)
    ensures
        ({
            let out = merge_of(first, second, write_secondary_header);
            let h = out.headers.len() as int;
            &&& out.rows().len() == h + first.body.len() + second.body.len()
            &&& out.rows()[0] == first.header_row()
            &&& forall|i: int|
                0 <= i < first.body.len() ==> out.rows()[h + i] == #[trigger] first.body[i]
            &&& forall|j: int|
                0 <= j < second.body.len() ==> out.rows()[h + first.body.len() + j]
                    == #[trigger] second.body[j]
        }),
{
}

impl MergedTable {
    /// The rows in the order in which they are written: the header rows,
    /// then the body.
    pub fn into_rows(self) -> (rows: Vec<Vec<String>>)
        ensures
            rows.deep_view() == self@.rows(),
    {
        let mut rows = self.headers;
        let mut body = self.body;
        let ghost head = rows@;
        let ghost tail = body@;
        rows.append(&mut body);
        assert(rows@ == head + tail);
        assert(rows.deep_view() =~= self.headers.deep_view() + self.body.deep_view());
        rows
    }
}

/// A merged file, ready to be written.
#[derive(Debug)]
pub struct MergedFile {
    /// The name of the file: `merged_`, the rank, `.csv`.
    pub name: String,
    /// The CSV text of the merged table.
    pub bytes: Vec<u8>,
}

/// What `merge_csv` returns, given what reading the two inputs gave: the
/// CSV text of the merged table, or the failure. The header row of the
/// second input is only read on the primary rank.
pub open spec fn merge_text(
    first_header: Option<Seq<Seq<char>>>,
    first_body: Option<Seq<Seq<Seq<char>>>>,
    second_header: Option<Seq<Seq<char>>>,
    second_body: Option<Seq<Seq<Seq<char>>>>,
    primary: bool,
) -> Result<Seq<u8>, PipelineError> {
    match (first_header, first_body, second_body) {
        (Some(first_names), Some(first_rows), Some(second_rows)) => {
            if primary {
                match second_header {
                    Some(second_names) => text_of(
                        seq![first_names, second_names] + (first_rows + second_rows),
                    ),
                    None => Err(PipelineError::Io),
                }
            } else {
                text_of(seq![first_names] + (first_rows + second_rows))
            }
        },
        _ => Err(PipelineError::Io),
    }
}

/// Idempotence on text. Two runs of the merger on the same two inputs and
/// the same rank end the same way: with the same bytes, or with the same
/// failure.
pub proof fn law_merged_text_is_repeatable(
    first: Seq<u8>,
    second: Seq<u8>,
    rank: i32,
    once: Result<Seq<u8>, PipelineError>,
    again: Result<Seq<u8>, PipelineError>,
)
    requires
        once == merge_text(
            header_record(first),
            data_records(first),
            header_record(second),
            data_records(second),
            rank == 0,
        ),
        again == merge_text(
            header_record(first),
            data_records(first),
            header_record(second),
            data_records(second),
            rank == 0,
        ),
    ensures
        once == again,
{
}

/// The merger on CSV text. The first record of each input is its header
/// row, the others are its body. The output is written under the name that
/// belongs to `rank`, and rank 0, the primary rank, is the one that writes
/// the second header row. Fails with `PipelineError::Io` where an input
/// cannot be read or the output cannot be written, which includes rows that
/// disagree in field count.
pub fn merge_csv(first: &[u8], second: &[u8], rank: i32) -> (r: Result<MergedFile, PipelineError>)
    ensures
        match r {
            Ok(file) => {
                &&& merge_text(
                    header_record(first@),
                    data_records(first@),
                    header_record(second@),
                    data_records(second@),
                    rank == 0,
                ) == Ok::<Seq<u8>, PipelineError>(file.bytes@)
                &&& file.name@ == output_name_text(JobMode::Concat, rank as int)
            },
            Err(e) => merge_text(
                header_record(first@),
                data_records(first@),
                header_record(second@),
                data_records(second@),
                rank == 0,
            ) == Err::<Seq<u8>, PipelineError>(e),
        },
{
    let first_body = match read_body(first) {
        Ok(rows) => rows,
        Err(e) => {
            return Err(e);
        },
    };
    let second_body = match read_body(second) {
        Ok(rows) => rows,
        Err(e) => {
            return Err(e);
        },
    };
    let first_header = match read_header(first) {
        Ok(names) => names,
        Err(e) => {
            return Err(e);
        },
    };
    let second_header = if rank == 0 {
        match read_header(second) {
            Ok(names) => Some(names),
            Err(e) => {
                return Err(e);
            },
        }
    } else {
        None
    };
    let merged = merge_rows(first_header, first_body, second_header, second_body);
    let rows = merged.into_rows();
    match write_rows(&rows) {
        Ok(bytes) => Ok(MergedFile { name: output_name(JobMode::Concat, rank), bytes }),
        Err(e) => Err(e),
    }
}

} // verus!
