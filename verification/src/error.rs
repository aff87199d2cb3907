//! The kinds of failure a run can meet.

use vstd::prelude::*;

verus! {

/// Why a step of the pipeline failed.
#[derive(Clone, Copy, Debug, PartialEq, Eq, Structural)]
pub enum PipelineError {
    /// An input could not be read as CSV text, or an output could not be
    /// written as CSV text.
    Io,
    /// A field that had to be a number is not the decimal notation of a
    /// 32-bit signed integer.
    Parse,
    /// An input has no header row, or the inputs disagree in column count.
    Schema,
    /// The process group could not be set up, or reported a rank outside
    /// of the group.
    Coordination,
}

impl PipelineError {
    /// The diagnostic line for this kind of failure.
    pub open spec fn message_text(self) -> Seq<char> {
        match self {
            PipelineError::Io => "could not read or write CSV data"@,
            PipelineError::Parse => "field is not a 32-bit integer"@,
            PipelineError::Schema => "Arquivos CSV diferentes"@,
            PipelineError::Coordination => "process group is not available"@,
        }
    }

    /// Returns the diagnostic line for this kind of failure.
    pub fn message(&self) -> (text: &'static str)
        ensures
            text@ == self.message_text(),
    {
        match self {
            PipelineError::Io => "could not read or write CSV data",
            PipelineError::Parse => "field is not a 32-bit integer",
            PipelineError::Schema => "Arquivos CSV diferentes",
            PipelineError::Coordination => "process group is not available",
        }
    }
}

} // verus!
