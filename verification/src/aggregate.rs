//! The column-sum aggregator.
//!
//! Row `i` of the first input is paired with row `i` of the second. Of each
//! row the first two fields are read as 32-bit integers and added, and the
//! two sums, one per input, make one output row. A pair in which a field is
//! missing or is no integer gives no output row; such pairs are counted.
//! Rows that have no partner, where one input is longer, are left out.
//!
//! The sums of all pairs are computed by `rayon`'s thread pool into a buffer
//! indexed like the inputs, and one loop then goes through that buffer in
//! index order.

use vstd::prelude::*;
use rayon::iter::{IndexedParallelIterator, IntoParallelRefIterator, ParallelIterator};
use crate::codec::{data_records, read_body, text_of, write_rows};
use crate::decimal::{decimal_text, format_i64, parse_field, parse_i32_text};
use crate::error::PipelineError;
use crate::job::{output_name, output_name_text, JobMode};
use crate::table::Table;

verus! {

/// Field `k` of a row as a 32-bit integer: `None` where the row has no such
/// field or the field is no integer.
pub open spec fn field_number(row: Seq<Seq<char>>, k: int) -> Option<i32> {
    if 0 <= k < row.len() {
        parse_i32_text(row[k])
    } else {
        None
    }
}

/// The sum of the first two fields of a row.
pub open spec fn pair_sum(row: Seq<Seq<char>>) -> Option<i64> {
    match (field_number(row, 0), field_number(row, 1)) {
        (Some(x), Some(y)) => Some((x + y) as i64),
        _ => None,
    }
}

/// The two sums of a pair of rows: `None` where either row has no sum.
pub open spec fn row_totals(a: Seq<Seq<char>>, b: Seq<Seq<char>>) -> Option<(i64, i64)> {
    match (pair_sum(a), pair_sum(b)) {
        (Some(s), Some(t)) => Some((s, t)),
        _ => None,
    }
}

/// The output row of a pair of rows: the two sums in decimal notation.
pub open spec fn summed_row(a: Seq<Seq<char>>, b: Seq<Seq<char>>) -> Option<Seq<Seq<char>>> {
    match row_totals(a, b) {
        Some(totals) => Some(seq![decimal_text(totals.0 as int), decimal_text(totals.1 as int)]),
        None => None,
    }
}

/// The number of pairs that two bodies make.
pub open spec fn paired(a: Seq<Seq<Seq<char>>>, b: Seq<Seq<Seq<char>>>) -> nat {
    if a.len() <= b.len() {
        a.len()
    } else {
        b.len()
    }
}

/// The output rows of the first `n` pairs, in the order of the pairs.
pub open spec fn summed_rows(a: Seq<Seq<Seq<char>>>, b: Seq<Seq<Seq<char>>>, n: nat) -> Seq<
    Seq<Seq<char>>,
>
    decreases n,
{
    if n == 0 {
        Seq::empty()
    } else {
        let front = summed_rows(a, b, (n - 1) as nat);
        match summed_row(a[n - 1], b[n - 1]) {
            Some(row) => front.push(row),
            None => front,
        }
    }
}

/// The number of pairs among the first `n` that give no output row.
pub open spec fn dropped_rows(a: Seq<Seq<Seq<char>>>, b: Seq<Seq<Seq<char>>>, n: nat) -> nat
    decreases n,
{
    if n == 0 {
        0
    } else {
        let front = dropped_rows(a, b, (n - 1) as nat);
        if summed_row(a[n - 1], b[n - 1]) is Some {
            front
        } else {
            front + 1
        }
    }
}

/// The whole output body of two input bodies.
pub open spec fn sum_body(a: Seq<Seq<Seq<char>>>, b: Seq<Seq<Seq<char>>>) -> Seq<Seq<Seq<char>>> {
    summed_rows(a, b, paired(a, b))
}

/// The place of pair `i` in the output: the number of output rows that the
/// pairs before it give.
pub open spec fn output_index(a: Seq<Seq<Seq<char>>>, b: Seq<Seq<Seq<char>>>, i: nat) -> nat {
    summed_rows(a, b, i).len()
}

/// Every pair gives an output row or is counted as dropped.
pub proof fn lemma_kept_and_dropped(a: Seq<Seq<Seq<char>>>, b: Seq<Seq<Seq<char>>>, n: nat)
    ensures
        summed_rows(a, b, n).len() + dropped_rows(a, b, n) == n,
    decreases n,
{
    if n > 0 {
        lemma_kept_and_dropped(a, b, (n - 1) as nat);
    }
}

/// The output of the first `n` pairs is the start of the output of the
/// first `m` pairs, for `n <= m`.
pub proof fn lemma_output_grows(
    a: Seq<Seq<Seq<char>>>,
    b: Seq<Seq<Seq<char>>>,
    n: nat,
    m: nat,
)
    requires
        n <= m,
    ensures
        summed_rows(a, b, n).len() <= summed_rows(a, b, m).len(),
        summed_rows(a, b, m).subrange(0, summed_rows(a, b, n).len() as int) == summed_rows(
            a,
            b,
            n,
        ),
    decreases m - n,
{
    if n == m {
        assert(summed_rows(a, b, m).subrange(0, summed_rows(a, b, n).len() as int) =~= summed_rows(
            a,
            b,
            n,
        ));
    } else {
        lemma_output_grows(a, b, n, (m - 1) as nat);
        let shorter = summed_rows(a, b, (m - 1) as nat);
        let longer = summed_rows(a, b, m);
        let k = summed_rows(a, b, n).len() as int;
        assert(longer.subrange(0, k) =~= shorter.subrange(0, k));
    }
}

/// Sum correctness. A pair whose four fields are integers gives the output
/// row that holds its two sums, and that row stands in the output at the
/// pair's place.
pub proof fn law_sum_row(a: Seq<Seq<Seq<char>>>, b: Seq<Seq<Seq<char>>>, i: nat)
    requires
        i < paired(a, b),
        summed_row(a[i as int], b[i as int]) is Some,
    ensures
        output_index(a, b, i) < sum_body(a, b).len(),
        Some(sum_body(a, b)[output_index(a, b, i) as int]) == summed_row(a[i as int], b[i as int]),
{
    let next = summed_rows(a, b, i + 1);
    assert(next == summed_rows(a, b, i).push(summed_row(a[i as int], b[i as int])->0));
    lemma_output_grows(a, b, i + 1, paired(a, b));
    let k = output_index(a, b, i) as int;
    assert(sum_body(a, b).subrange(0, next.len() as int)[k] == next[k]);
}

/// A pair in which a field is missing or is no integer gives no output
/// row: the output is the same with and without it.
pub proof fn law_sum_skips_row(a: Seq<Seq<Seq<char>>>, b: Seq<Seq<Seq<char>>>, i: nat)
    requires
        i < paired(a, b),
        summed_row(a[i as int], b[i as int]) is None,
    ensures
        summed_rows(a, b, i + 1) == summed_rows(a, b, i),
        dropped_rows(a, b, i + 1) == dropped_rows(a, b, i) + 1,
{
}

/// Every output row is the row of some pair, and stands at that pair's
/// place: nothing is in the output but the sums of the inputs' rows.
pub proof fn law_sum_rows_have_sources(
    a: Seq<Seq<Seq<char>>>,
    b: Seq<Seq<Seq<char>>>,
    n: nat,
    k: int,
) -> (i: nat)
    requires
        0 <= k < summed_rows(a, b, n).len(),
    ensures
        i < n,
        output_index(a, b, i) == k,
        summed_row(a[i as int], b[i as int]) == Some(summed_rows(a, b, n)[k]),
    decreases n,
{
    let front = summed_rows(a, b, (n - 1) as nat);
    if k < front.len() {
        let i = law_sum_rows_have_sources(a, b, (n - 1) as nat, k);
        i
    } else {
        (n - 1) as nat
    }
}

/// Row-order preservation. Of two pairs that both give an output row, the
/// one that comes first in the inputs comes first in the output.
pub proof fn law_sum_keeps_order(
    a: Seq<Seq<Seq<char>>>,
    b: Seq<Seq<Seq<char>>>,
    i: nat,
    j: nat,
)
    requires
        i < j < paired(a, b),
        summed_row(a[i as int], b[i as int]) is Some,
        summed_row(a[j as int], b[j as int]) is Some,
    ensures
        output_index(a, b, i) < output_index(a, b, j) < sum_body(a, b).len(),
        Some(sum_body(a, b)[output_index(a, b, i) as int]) == summed_row(a[i as int], b[i as int]),
        Some(sum_body(a, b)[output_index(a, b, j) as int]) == summed_row(a[j as int], b[j as int]),
{
    law_sum_row(a, b, i);
    law_sum_row(a, b, j);
    assert(summed_rows(a, b, i + 1).len() == summed_rows(a, b, i).len() + 1);
    lemma_output_grows(a, b, i + 1, j);
}

/// Where every pair gives an output row, output row `i` is the row of pair
/// `i`.
pub proof fn law_sum_of_clean_inputs(a: Seq<Seq<Seq<char>>>, b: Seq<Seq<Seq<char>>>, n: nat)
    requires
        n <= paired(a, b),
        forall|i: int| 0 <= i < n ==> summed_row(#[trigger] a[i], b[i]) is Some,
    ensures
        summed_rows(a, b, n).len() == n,
        dropped_rows(a, b, n) == 0,
        forall|i: int|
            0 <= i < n ==> Some(#[trigger] summed_rows(a, b, n)[i]) == summed_row(a[i], b[i]),
    decreases n,
{
    if n > 0 {
        law_sum_of_clean_inputs(a, b, (n - 1) as nat);
        assert(summed_row(a[n - 1], b[n - 1]) is Some);
    }
}

/// Every output row has two fields.
pub proof fn lemma_output_has_two_columns(
    a: Seq<Seq<Seq<char>>>,
    b: Seq<Seq<Seq<char>>>,
    n: nat,
)
    ensures
        forall|k: int|
            0 <= k < summed_rows(a, b, n).len() ==> (#[trigger] summed_rows(a, b, n)[k]).len()
                == 2,
    decreases n,
{
    if n > 0 {
        lemma_output_has_two_columns(a, b, (n - 1) as nat);
        let front = summed_rows(a, b, (n - 1) as nat);
        let all = summed_rows(a, b, n);
        assert forall|k: int| 0 <= k < all.len() implies (#[trigger] all[k]).len() == 2 by {
            if k < front.len() {
                assert(all[k] == front[k]);
            }
        }
    }
}

/// Adds the first two fields of a row. `None` where the row has fewer than
/// two fields or one of the two is no 32-bit integer: a field that does not
/// parse is no failure of the aggregator, the row is passed over.
pub fn add_pair(row: &Vec<String>) -> (r: Option<i64>)
    ensures
        r == pair_sum(row.deep_view()),
{
    if row.len() < 2 {
        return None;
    }
    assert(row.deep_view()[0] == row[0]@);
    assert(row.deep_view()[1] == row[1]@);
    let x = match parse_field(row[0].as_str()) {
        Ok(x) => x,
        Err(_) => {
            return None;
        },
    };
    let y = match parse_field(row[1].as_str()) {
        Ok(y) => y,
        Err(_) => {
            return None;
        },
    };
    Some(x as i64 + y as i64)
}

/// The two sums of a pair of rows, one per row. `None` where either row has
/// no sum.
pub fn add_rows(a: &Vec<String>, b: &Vec<String>) -> (r: Option<(i64, i64)>)
    ensures
        r == row_totals(a.deep_view(), b.deep_view()),
{
    let s = match add_pair(a) {
        Some(s) => s,
        None => {
            return None;
        },
    };
    let t = match add_pair(b) {
        Some(t) => t,
        None => {
            return None;
        },
    };
    Some((s, t))
}

/// Hands the pairs of rows to `rayon`: `par_iter` on both inputs, `zip`,
/// `map` with `add_rows`, and `collect` into a vector. As `rayon` documents
/// these, the vector has one entry for each pair, in the order of the
/// inputs, and entry `i` is what `add_rows` returns for pair `i`.
#[verifier::external_body]
fn add_rows_in_parallel(a: &Vec<Vec<String>>, b: &Vec<Vec<String>>) -> (sums: Vec<
    Option<(i64, i64)>,
>)
    ensures
        sums.len() == paired(a.deep_view(), b.deep_view()),
        forall|i: int|
            0 <= i < sums.len() ==> #[trigger] sums[i] == row_totals(
                a[i].deep_view(),
                b[i].deep_view(),
            ),
{
    a.par_iter().zip(b.par_iter()).map(|(x, y)| add_rows(x, y)).collect()
}

/// Sums two bodies pair by pair. Returns the output rows, in the order of
/// the inputs, and the number of pairs that were dropped.
pub fn sum_rows(a: &Vec<Vec<String>>, b: &Vec<Vec<String>>) -> (out: (Vec<Vec<String>>, usize))
    ensures
        out.0.deep_view() == sum_body(a.deep_view(), b.deep_view()),
        out.1 == dropped_rows(
            a.deep_view(),
            b.deep_view(),
            paired(a.deep_view(), b.deep_view()),
        ),
{
    let ghost av = a.deep_view();
    let ghost bv = b.deep_view();
    let sums = add_rows_in_parallel(a, b);
    let mut rows: Vec<Vec<String>> = Vec::new();
    let mut dropped: usize = 0;
    let mut i: usize = 0;
    assert(rows.deep_view() =~= summed_rows(av, bv, 0));
    while i < sums.len()
        invariant
            i <= sums.len(),
            av == a.deep_view(),
            bv == b.deep_view(),
            sums.len() == paired(av, bv),
            forall|k: int|
                0 <= k < sums.len() ==> #[trigger] sums[k] == row_totals(
                    a[k].deep_view(),
                    b[k].deep_view(),
                ),
            rows.deep_view() == summed_rows(av, bv, i as nat),
            dropped == dropped_rows(av, bv, i as nat),
            dropped <= i,
        decreases sums.len() - i,
    {
        let ghost before = rows.deep_view();
        assert(av[i as int] == a[i as int].deep_view());
        assert(bv[i as int] == b[i as int].deep_view());
        match sums[i] {
            Some(totals) => {
                let mut row: Vec<String> = Vec::new();
                row.push(format_i64(totals.0));
                row.push(format_i64(totals.1));
                assert(row.deep_view() =~= seq![
                    decimal_text(totals.0 as int),
                    decimal_text(totals.1 as int),
                ]);
                rows.push(row);
                assert(rows.deep_view() =~= before.push(row.deep_view()));
            },
            None => {
                dropped = dropped + 1;
            },
        }
        i = i + 1;
    }
    (rows, dropped)
}

/// What the aggregator returns: the table of sums and the number of pairs
/// of rows that it dropped.
#[derive(Debug)]
pub struct SumOutcome {
    /// The table of sums. It has no header row.
    pub table: Table,
    /// The number of pairs that gave no output row.
    pub dropped: usize,
}

/// The column-sum aggregator on two tables. The output has no header row;
/// its body holds, in the order of the inputs, one row of two sums for each
/// pair of rows whose first two fields are integers.
pub fn sum(a: &Table, b: &Table) -> (out: SumOutcome)
    ensures
        out.table@.header is None,
        out.table@.body == sum_body(a@.body, b@.body),
        out.dropped == dropped_rows(a@.body, b@.body, paired(a@.body, b@.body)),
        out.table@.body.len() + out.dropped == paired(a@.body, b@.body),
{
    let (rows, dropped) = sum_rows(a.body(), b.body());
    proof {
        lemma_output_has_two_columns(a@.body, b@.body, paired(a@.body, b@.body));
        lemma_kept_and_dropped(a@.body, b@.body, paired(a@.body, b@.body));
    }
    let header: Option<Vec<String>> = None;
    let table = Table::from_checked_parts(header, rows);
    SumOutcome { table, dropped }
}

/// A file of sums, ready to be written.
#[derive(Debug)]
pub struct SumFile {
    /// The name of the file: `somado_`, the rank, `.csv`.
    pub name: String,
    /// The CSV text of the sums.
    pub bytes: Vec<u8>,
    /// The number of pairs of rows that gave no output row.
    pub dropped: usize,
}

/// What `add_csv_columns_and_output` returns, given what reading the data
/// rows of the two inputs gave: the CSV text of the sums, or the failure.
pub open spec fn sum_text(
    first: Option<Seq<Seq<Seq<char>>>>,
    second: Option<Seq<Seq<Seq<char>>>>,
) -> Result<Seq<u8>, PipelineError> {
    match (first, second) {
        (Some(a), Some(b)) => text_of(sum_body(a, b)),
        _ => Err(PipelineError::Io),
    }
}

/// The aggregator on CSV text. The first record of each input is its header
/// row and takes no part; the other records are summed pair by pair, and the
/// sums are written as CSV text without a header row, under the name that
/// belongs to `rank`. Fails with `PipelineError::Io` where an input cannot be
/// read or the output cannot be written.
pub fn add_csv_columns_and_output(first: &[u8], second: &[u8], rank: i32) -> (r: Result<
    SumFile,
    PipelineError,
>)
    ensures
        match r {
            Ok(file) => {
                &&& sum_text(data_records(first@), data_records(second@)) == Ok::<
                    Seq<u8>,
                    PipelineError,
                >(file.bytes@)
                &&& file.name@ == output_name_text(JobMode::Sum, rank as int)
                &&& data_records(first@) is Some
                &&& data_records(second@) is Some
                &&& file.dropped == dropped_rows(
                    data_records(first@)->0,
                    data_records(second@)->0,
                    paired(data_records(first@)->0, data_records(second@)->0),
                )
            },
            Err(e) => sum_text(data_records(first@), data_records(second@)) == Err::<
                Seq<u8>,
                PipelineError,
            >(e),
        },
{
    let a = match read_body(first) {
        Ok(rows) => rows,
        Err(e) => {
            return Err(e);
        },
    };
    let b = match read_body(second) {
        Ok(rows) => rows,
        Err(e) => {
            return Err(e);
        },
    };
    let (rows, dropped) = sum_rows(&a, &b);
    match write_rows(&rows) {
        Ok(bytes) => Ok(SumFile { name: output_name(JobMode::Sum, rank), bytes, dropped }),
        Err(e) => Err(e),
    }
}

} // verus!
