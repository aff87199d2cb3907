//! Tables: an optional header row and a body of data rows.
//!
//! A row is a sequence of fields and a field is a text. In contracts a field
//! is a `Seq<char>`, a row a `Seq<Seq<char>>`, and a run of rows a
//! `Seq<Seq<Seq<char>>>`.

use vstd::prelude::*;
use crate::error::PipelineError;

verus! {

/// True when every row of `rows` has exactly `width` fields.
pub open spec fn rows_have_width(rows: Seq<Seq<Seq<char>>>, width: nat) -> bool {
    forall|i: int| 0 <= i < rows.len() ==> (#[trigger] rows[i]).len() == width
}

/// True when all rows of `rows` have the same number of fields.
pub open spec fn uniform(rows: Seq<Seq<Seq<char>>>) -> bool {
    rows.len() > 0 ==> rows_have_width(rows, rows[0].len())
}

/// What a table holds.
pub struct TableView {
    /// The field names, when the table has a header row.
    pub header: Option<Seq<Seq<char>>>,
    /// The data rows, in order.
    pub body: Seq<Seq<Seq<char>>>,
}

impl TableView {
    /// All data rows have the same number of fields, and as many as the
    /// header when there is one.
    pub open spec fn well_formed(self) -> bool {
        match self.header {
            Some(names) => rows_have_width(self.body, names.len()),
            None => uniform(self.body),
        }
    }

    /// The rows in the order in which a table is written: the header row,
    /// when there is one, then the body.
    pub open spec fn rows(self) -> Seq<Seq<Seq<char>>> {
        match self.header {
            Some(names) => seq![names] + self.body,
            None => self.body,
        }
    }

    /// The header row as it is written: the field names, or a row without
    /// fields where the table has no header.
    pub open spec fn header_row(self) -> Seq<Seq<char>> {
        match self.header {
            Some(names) => names,
            None => Seq::empty(),
        }
    }
}

/// A table in memory. Every value of this type is well formed: its data
/// rows agree in field count with each other and with the header.
#[derive(Debug)]
pub struct Table {
    header: Option<Vec<String>>,
    body: Vec<Vec<String>>,
}

impl View for Table {
    type V = TableView;

    closed spec fn view(&self) -> TableView {
        TableView { header: self.header.deep_view(), body: self.body.deep_view() }
    }
}

/// Says whether every row has exactly `width` fields.
pub fn all_rows_have_width(rows: &Vec<Vec<String>>, width: usize) -> (r: bool)
    ensures
        r == rows_have_width(rows.deep_view(), width as nat),
{
    let mut i: usize = 0;
    while i < rows.len()
        invariant
            i <= rows.len(),
            forall|k: int| 0 <= k < i ==> (#[trigger] rows.deep_view()[k]).len() == width,
        decreases rows.len() - i,
    {
        if rows[i].len() != width {
            assert(rows.deep_view()[i as int].len() != width);
            return false;
        }
        assert(rows.deep_view()[i as int].len() == width);
        i = i + 1;
    }
    true
}

/// A copy of a row.
pub fn clone_row(row: &Vec<String>) -> (copy: Vec<String>)
    ensures
        copy.deep_view() == row.deep_view(),
{
    let mut copy: Vec<String> = Vec::new();
    let mut i: usize = 0;
    while i < row.len()
        invariant
            i <= row.len(),
            copy.len() == i,
            forall|k: int| 0 <= k < i ==> (#[trigger] copy[k])@ == row[k]@,
        decreases row.len() - i,
    {
        copy.push(row[i].clone());
        i = i + 1;
    }
    assert(copy.deep_view() =~= row.deep_view());
    copy
}

impl Table {
    #[verifier::type_invariant]
    spec fn rows_agree(self) -> bool {
        self@.well_formed()
    }

    /// Builds a table from a header and a body. Fails with
    /// `PipelineError::Schema` when the rows disagree in field count.
    pub fn new(header: Option<Vec<String>>, body: Vec<Vec<String>>) -> (r: Result<
        Table,
        PipelineError,
    >)
        ensures
            match r {
                Ok(table) => table@ == (TableView {
                    header: header.deep_view(),
                    body: body.deep_view(),
                }) && table@.well_formed(),
                Err(e) => e == PipelineError::Schema && !(TableView {
                    header: header.deep_view(),
                    body: body.deep_view(),
                }).well_formed(),
            },
    {
        let width: usize = match &header {
            Some(names) => names.len(),
            None => if body.len() > 0 {
                body[0].len()
            } else {
                0
            },
        };
        if all_rows_have_width(&body, width) {
            Ok(Table { header, body })
        } else {
            Err(PipelineError::Schema)
        }
    }

    /// Builds a table from parts that are known to agree in field count.
    pub(crate) fn from_checked_parts(header: Option<Vec<String>>, body: Vec<Vec<String>>) -> (table:
        Table)
        requires
            (TableView { header: header.deep_view(), body: body.deep_view() }).well_formed(),
        ensures
            table@ == (TableView { header: header.deep_view(), body: body.deep_view() }),
    {
        Table { header, body }
    }

    /// The header row, if the table has one.
    pub fn header(&self) -> (names: &Option<Vec<String>>)
        ensures
            names.deep_view() == self@.header,
            self@.well_formed(),
    {
        proof {
            use_type_invariant(self);
        }
        &self.header
    }

    /// The data rows.
    pub fn body(&self) -> (rows: &Vec<Vec<String>>)
        ensures
            rows.deep_view() == self@.body,
            self@.well_formed(),
    {
        proof {
            use_type_invariant(self);
        }
        &self.body
    }

    /// The number of data rows.
    pub fn row_count(&self) -> (n: usize)
        ensures
            n == self@.body.len(),
    {
        self.body.len()
    }

    /// The number of columns: the length of the header row. Fails with
    /// `PipelineError::Schema` when the table has no header row, or one
    /// without fields.
    pub fn column_count(&self) -> (r: Result<usize, PipelineError>)
        ensures
            r == column_count_of(self@.header_row()),
    {
        match &self.header {
            Some(names) => column_count(names),
            None => Err(PipelineError::Schema),
        }
    }

    /// The header row as it is written: the field names, or a row without
    /// fields where the table has no header.
    pub fn header_row(&self) -> (row: Vec<String>)
        ensures
            row.deep_view() == self@.header_row(),
    {
        match &self.header {
            Some(names) => clone_row(names),
            None => {
                let row: Vec<String> = Vec::new();
                assert(row.deep_view() =~= Seq::<Seq<char>>::empty());
                row
            },
        }
    }

    /// The rows in the order in which the table is written: the header
    /// row, when there is one, then the body.
    pub fn rows(&self) -> (rows: Vec<Vec<String>>)
        ensures
            rows.deep_view() == self@.rows(),
    {
        let mut rows: Vec<Vec<String>> = Vec::new();
        match &self.header {
            Some(names) => {
                rows.push(clone_row(names));
            },
            None => {},
        }
        let ghost head = rows.deep_view();
        let mut i: usize = 0;
        while i < self.body.len()
            invariant
                i <= self.body.len(),
                rows.len() == head.len() + i,
                head.len() <= 1,
                forall|k: int| 0 <= k < head.len() ==> (#[trigger] rows[k]).deep_view() == head[k],
                forall|k: int|
                    head.len() <= k < rows.len() ==> (#[trigger] rows[k]).deep_view()
                        == self.body[k - head.len()].deep_view(),
            decreases self.body.len() - i,
        {
            rows.push(clone_row(&self.body[i]));
            i = i + 1;
        }
        assert(rows.deep_view() =~= head + self.body.deep_view());
        assert(rows.deep_view() =~= self@.rows());
        rows
    }

    /// Takes the table apart into its header and its body.
    pub fn into_parts(self) -> (parts: (Option<Vec<String>>, Vec<Vec<String>>))
        ensures
            parts.0.deep_view() == self@.header,
            parts.1.deep_view() == self@.body,
            self@.well_formed(),
    {
        proof {
            use_type_invariant(&self);
        }
        (self.header, self.body)
    }
}

/// The column count that a header row stands for: its number of fields, or
/// `PipelineError::Schema` for a row without fields, which is what an
/// input without any record has for a header.
pub open spec fn column_count_of(header: Seq<Seq<char>>) -> Result<usize, PipelineError> {
    if header.len() == 0 {
        Err(PipelineError::Schema)
    } else {
        Ok(header.len() as usize)
    }
}

/// Counts the columns that a header row names. Fails with
/// `PipelineError::Schema` when the row has no fields: there is no header
/// row then.
pub fn column_count(header: &Vec<String>) -> (r: Result<usize, PipelineError>)
    ensures
        r == column_count_of(header.deep_view()),
{
    if header.len() == 0 {
        Err(PipelineError::Schema)
    } else {
        Ok(header.len())
    }
}

} // verus!
