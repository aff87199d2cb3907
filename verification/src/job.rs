//! Jobs and the names of their outputs.
//!
//! A job reads two inputs and writes one output. The output's name is made
//! of the job's mode and the rank that owns the job, so that no two outputs
//! of a run share a name.

use vstd::prelude::*;
use crate::decimal::{decimal_text, format_i64, lemma_decimal_text_injective};

verus! {

/// What a job does with its two inputs.
#[derive(Clone, Copy, Debug, PartialEq, Eq, Structural)]
pub enum JobMode {
    /// Adds the columns of the two inputs, pair of rows by pair of rows.
    Sum,
    /// Puts the rows of the second input after the rows of the first.
    Concat,
}

/// The start of an output's name.
pub open spec fn output_prefix(mode: JobMode) -> Seq<char> {
    match mode {
        JobMode::Sum => "somado_"@,
        JobMode::Concat => "merged_"@,
    }
}

/// The name of the output of a job: `somado_<rank>.csv` for sums and
/// `merged_<rank>.csv` for merged tables, with the rank in decimal notation.
pub open spec fn output_name_text(mode: JobMode, rank: int) -> Seq<char> {
    output_prefix(mode) + decimal_text(rank) + ".csv"@
}

/// Two jobs have the same output name only if they agree in mode and rank.
pub proof fn law_output_names_distinct(mode_a: JobMode, rank_a: int, mode_b: JobMode, rank_b: int)
    requires
        output_name_text(mode_a, rank_a) == output_name_text(mode_b, rank_b),
    ensures
        mode_a == mode_b,
        rank_a == rank_b,
{
    reveal_strlit("somado_");
    reveal_strlit("merged_");
    reveal_strlit(".csv");
    let a = output_name_text(mode_a, rank_a);
    let b = output_name_text(mode_b, rank_b);
    assert(output_prefix(mode_a).len() == 7);
    assert(output_prefix(mode_b).len() == 7);
    assert(a[0] == output_prefix(mode_a)[0]);
    assert(b[0] == output_prefix(mode_b)[0]);
    assert(mode_a == mode_b);
    let da = decimal_text(rank_a);
    let db = decimal_text(rank_b);
    assert(a.len() == 7 + da.len() + 4);
    assert(b.len() == 7 + db.len() + 4);
    assert(da =~= db) by {
        assert forall|i: int| 0 <= i < da.len() implies da[i] == db[i] by {
            assert(a[7 + i] == da[i]);
            assert(b[7 + i] == db[i]);
        }
    }
    lemma_decimal_text_injective(rank_a, rank_b);
}

/// Makes the name of the output of a job.
pub fn output_name(mode: JobMode, rank: i32) -> (name: String)
    ensures
        name@ == output_name_text(mode, rank as int),
{
    let mut name = match mode {
        JobMode::Sum => String::from_str("somado_"),
        JobMode::Concat => String::from_str("merged_"),
    };
    let digits = format_i64(rank as i64);
    name.append(digits.as_str());
    name.append(".csv");
    name
}

/// What a job is, as plain values.
pub struct MergeJobView {
    /// The name of the first input.
    pub first: Seq<char>,
    /// The name of the second input.
    pub second: Seq<char>,
    /// The name of the output.
    pub output: Seq<char>,
    /// What the job does.
    pub mode: JobMode,
}

/// One job of a run: two inputs, an output and a mode.
#[derive(Debug)]
pub struct MergeJob {
    /// The name of the first input.
    pub first: String,
    /// The name of the second input.
    pub second: String,
    /// The name of the output.
    pub output: String,
    /// What the job does.
    pub mode: JobMode,
}

impl View for MergeJob {
    type V = MergeJobView;

    open spec fn view(&self) -> MergeJobView {
        MergeJobView {
            first: self.first@,
            second: self.second@,
            output: self.output@,
            mode: self.mode,
        }
    }
}

/// The job of mode `mode` that rank `rank` owns on two inputs.
pub open spec fn job_of(mode: JobMode, first: Seq<char>, second: Seq<char>, rank: int) -> MergeJobView {
    MergeJobView { first, second, output: output_name_text(mode, rank), mode }
}

impl MergeJob {
    /// Describes the job of mode `mode` that rank `rank` owns on two
    /// inputs. The output is named after the mode and the rank.
    pub fn new(mode: JobMode, first: &str, second: &str, rank: i32) -> (job: MergeJob)
        ensures
            job@ == job_of(mode, first@, second@, rank as int),
    {
        MergeJob {
            first: String::from_str(first),
            second: String::from_str(second),
            output: output_name(mode, rank),
            mode,
        }
    }
}

} // verus!
