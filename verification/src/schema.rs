//! The schema guard.
//!
//! Every input of a run has to report the same number of columns before
//! anything is aggregated or merged. The number of columns of an input is
//! the number of fields of its header row.

use vstd::prelude::*;
use crate::codec::{header_record, read_header};
use crate::error::PipelineError;
use crate::table::{column_count, column_count_of};

verus! {

/// True when all counts are the same. It holds of no count and of one
/// count.
pub open spec fn all_equal_counts(counts: Seq<usize>) -> bool {
    forall|i: int, j: int|
        0 <= i < counts.len() && 0 <= j < counts.len() ==> counts[i] == counts[j]
}

/// Says whether all inputs report the same column count.
pub fn all_equal(counts: &[usize]) -> (r: bool)
    ensures
        r == all_equal_counts(counts@),
{
    let mut i: usize = 1;
    while i < counts.len()
        invariant
            1 <= i,
            forall|k: int| 0 <= k < i && k < counts.len() ==> #[trigger] counts@[k] == counts@[0],
        decreases counts.len() - i,
    {
        if counts[i] != counts[0] {
            return false;
        }
        i = i + 1;
    }
    true
}

/// The schema guard on the column counts of the inputs. Fails with
/// `PipelineError::Schema` exactly when two counts differ.
pub fn check_counts(counts: &[usize]) -> (r: Result<(), PipelineError>)
    ensures
        r is Ok <==> all_equal_counts(counts@),
        r is Err ==> r == Err::<(), PipelineError>(PipelineError::Schema),
{
    if all_equal(counts) {
        Ok(())
    } else {
        Err(PipelineError::Schema)
    }
}

/// The column count of a CSV text, given what reading its first record
/// gave: `PipelineError::Io` where it could not be read, and
/// `PipelineError::Schema` where it has no fields, which is the case of a
/// text without any record.
pub open spec fn column_count_outcome(first: Option<Seq<Seq<char>>>) -> Result<
    usize,
    PipelineError,
> {
    match first {
        Some(names) => column_count_of(names),
        None => Err(PipelineError::Io),
    }
}

/// Counts the columns of a CSV text: the fields of its header row. Fails
/// with `PipelineError::Io` where the text cannot be read, and with
/// `PipelineError::Schema` where it has no header row.
pub fn checa_size(bytes: &[u8]) -> (r: Result<usize, PipelineError>)
    ensures
        r == column_count_outcome(header_record(bytes@)),
{
    match read_header(bytes) {
        Ok(names) => column_count(&names),
        Err(e) => Err(e),
    }
}

/// The column count of input `i`, given the texts of the inputs.
pub open spec fn count_of_input(inputs: Seq<Seq<u8>>, i: int) -> Result<usize, PipelineError> {
    column_count_outcome(header_record(inputs[i]))
}

/// Counts the columns of every input, in order. Fails with the failure of
/// the first input whose columns cannot be counted.
pub fn column_counts(inputs: &Vec<Vec<u8>>) -> (r: Result<Vec<usize>, PipelineError>)
    ensures
        match r {
            Ok(counts) => {
                &&& counts@.len() == inputs@.len()
                &&& forall|i: int|
                    0 <= i < inputs@.len() ==> count_of_input(inputs.deep_view(), i) == Ok::<
                        usize,
                        PipelineError,
                    >(#[trigger] counts@[i])
            },
            Err(e) => exists|k: int|
                {
                    &&& 0 <= k < inputs@.len()
                    &&& #[trigger] count_of_input(inputs.deep_view(), k) == Err::<
                        usize,
                        PipelineError,
                    >(e)
                    &&& forall|i: int|
                        0 <= i < k ==> (#[trigger] count_of_input(inputs.deep_view(), i)) is Ok
                },
        },
{
    let mut counts: Vec<usize> = Vec::new();
    let mut i: usize = 0;
    while i < inputs.len()
        invariant
            i <= inputs.len(),
            counts@.len() == i,
            forall|k: int|
                0 <= k < i ==> count_of_input(inputs.deep_view(), k) == Ok::<usize, PipelineError>(
                    #[trigger] counts@[k],
                ),
        decreases inputs.len() - i,
    {
        assert(inputs.deep_view()[i as int] == inputs@[i as int]@);
        match checa_size(inputs[i].as_slice()) {
            Ok(count) => {
                counts.push(count);
            },
            Err(e) => {
                assert(count_of_input(inputs.deep_view(), i as int) == Err::<usize, PipelineError>(e));
                assert forall|k: int| 0 <= k < i implies (#[trigger] count_of_input(
                    inputs.deep_view(),
                    k,
                )) is Ok by {
                    assert(count_of_input(inputs.deep_view(), k) == Ok::<usize, PipelineError>(
                        counts@[k],
                    ));
                }
                return Err(e);
            },
        }
        i = i + 1;
    }
    Ok(counts)
}

} // verus!
