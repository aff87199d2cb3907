//! The rank coordinator.
//!
//! A run is a group of cooperating processes. Each process has a rank in
//! `[0, size)`, and rank 0 is the primary rank: it alone announces, reports
//! and writes. This module decides what a process does next; the caller
//! does it (sets up the group, reads column counts, waits at the barrier,
//! runs a job, prints) and comes back with what happened.
//!
//! The primary rank runs every job of a run: the sum of the first two
//! inputs, which is named after rank 0, the sum of the other two, which is
//! named after rank 1, and the merge of the two files of sums. The other
//! ranks take part in the barrier and end after it.
//!
//! A run goes through these states: `Uninitialized`, `Initialized`,
//! `SchemaChecked`, `Aggregating`, `Merging`, `Reported`, `Terminated`. Where
//! the inputs disagree in column count the run goes from `SchemaChecked`
//! straight to `Terminated`.

use vstd::prelude::*;
use crate::error::PipelineError;
use crate::job::{job_of, output_name, output_name_text, JobMode, MergeJob, MergeJobView};
use crate::schema::{all_equal, all_equal_counts};

verus! {

/// The place of a process in its group.
#[derive(Clone, Copy, Debug)]
pub struct Coordinator {
    rank: i32,
    size: i32,
}

impl Coordinator {
    #[verifier::type_invariant]
    spec fn in_group(self) -> bool {
        0 <= self.rank < self.size
    }

    /// The rank of the process.
    pub closed spec fn rank_value(self) -> int {
        self.rank as int
    }

    /// The number of processes in the group.
    pub closed spec fn size_value(self) -> int {
        self.size as int
    }

    /// Describes the process of rank `rank` in a group of `size`. Fails
    /// with `PipelineError::Coordination` unless `0 <= rank < size`.
    pub fn new(rank: i32, size: i32) -> (r: Result<Coordinator, PipelineError>)
        ensures
            r is Ok <==> 0 <= rank < size,
            r matches Ok(c) ==> c.rank_value() == rank && c.size_value() == size,
            r matches Err(e) ==> e == PipelineError::Coordination,
    {
        if 0 <= rank && rank < size {
            Ok(Coordinator { rank, size })
        } else {
            Err(PipelineError::Coordination)
        }
    }

    /// The only process of a group of one.
    pub fn single() -> (c: Coordinator)
        ensures
            c.rank_value() == 0,
            c.size_value() == 1,
    {
        Coordinator { rank: 0, size: 1 }
    }

    /// The rank of the process.
    pub fn rank(&self) -> (rank: i32)
        ensures
            rank == self.rank_value(),
            0 <= rank < self.size_value(),
    {
        proof {
            use_type_invariant(self);
        }
        self.rank
    }

    /// The number of processes in the group.
    pub fn size(&self) -> (size: i32)
        ensures
            size == self.size_value(),
            self.rank_value() < size,
    {
        proof {
            use_type_invariant(self);
        }
        self.size
    }

    /// Says whether the process is the primary one, rank 0.
    pub fn is_primary(&self) -> (primary: bool)
        ensures
            primary == (self.rank_value() == 0),
    {
        self.rank == 0
    }
}

/// Where a run stands.
#[derive(Clone, Copy, Debug, PartialEq, Eq, Structural)]
pub enum RunState {
    /// The process group has not been set up.
    Uninitialized,
    /// The process knows its rank; the inputs have not been looked at.
    Initialized { rank: i32 },
    /// The column counts of the inputs are known, and `consistent` says
    /// whether they agree.
    SchemaChecked { rank: i32, consistent: bool },
    /// The aggregation of pair `pair` of the inputs is under way.
    Aggregating { rank: i32, pair: u8 },
    /// The merge of the sums is under way.
    Merging { rank: i32 },
    /// The jobs are done and the report is being made.
    Reported { rank: i32 },
    /// Nothing more will be done.
    Terminated,
}

/// What happened since the last decision.
#[derive(Debug)]
pub enum RunEvent {
    /// The process group is set up and the process has this rank in it.
    CoordinatorReady { rank: i32, size: i32 },
    /// The process group could not be set up.
    CoordinatorFailed,
    /// Every input was read, and these are their column counts.
    ColumnCounts(Vec<usize>),
    /// The column count of an input could not be had.
    CountFailed(PipelineError),
    /// Every process of the group has reached the barrier.
    BarrierPassed,
    /// The job that was asked for has ended, with or without a failure.
    JobFinished(Option<PipelineError>),
    /// The message that was asked for has been printed.
    Acknowledged,
}

/// What the caller is to do next.
#[derive(Clone, Copy, Debug, PartialEq, Eq, Structural)]
pub enum RunAction {
    /// Read the column count of every input; before that, print the
    /// opening line where `announce` is set.
    CountColumns { announce: bool },
    /// Start the clock and wait at the barrier.
    Barrier,
    /// Sum inputs `first_input` and `second_input` into the file of sums
    /// that is named after `output_rank`.
    RunSum { first_input: usize, second_input: usize, output_rank: i32 },
    /// Merge the files of sums named after `first_rank` and `second_rank`
    /// into the merged file named after `output_rank`.
    RunMerge { first_rank: i32, second_rank: i32, output_rank: i32 },
    /// Print the time that the jobs took.
    ReportElapsed,
    /// Say that the inputs disagree in column count, where `announce` is
    /// set, and do nothing else.
    ReportMismatch { announce: bool },
    /// Give the run up with this failure.
    Abort(PipelineError),
    /// End the process.
    Finish,
}

/// A decision: the state the run is in from now on, the failure of the job
/// that just ended, which is to be printed, and what to do next.
#[derive(Clone, Copy, Debug, PartialEq, Eq, Structural)]
pub struct Decision {
    /// The state of the run from now on.
    pub next: RunState,
    /// The failure to print before anything else is done.
    pub diagnostic: Option<PipelineError>,
    /// What to do next.
    pub action: RunAction,
}

impl RunAction {
    /// True for the actions that create an output file.
    pub open spec fn writes(self) -> bool {
        self is RunSum || self is RunMerge
    }

    /// Says whether the action creates an output file.
    pub fn creates_output(&self) -> (r: bool)
        ensures
            r == self.writes(),
    {
        match self {
            RunAction::RunSum { .. } => true,
            RunAction::RunMerge { .. } => true,
            _ => false,
        }
    }
}

impl RunState {
    /// True in the states in which the inputs are known to agree in column
    /// count.
    pub open spec fn agreed(self) -> bool {
        match self {
            RunState::SchemaChecked { consistent, .. } => consistent,
            RunState::Aggregating { .. } => true,
            RunState::Merging { .. } => true,
            RunState::Reported { .. } => true,
            _ => false,
        }
    }

    /// True in the states from which no output file can come any more:
    /// after a schema mismatch and at the end.
    pub open spec fn closed(self) -> bool {
        match self {
            RunState::SchemaChecked { consistent, .. } => !consistent,
            RunState::Reported { .. } => true,
            RunState::Terminated => true,
            _ => false,
        }
    }
}

/// The decision that ends a run whose caller reports something that cannot
/// happen in the state the run is in.
pub open spec fn out_of_turn() -> Decision {
    Decision {
        next: RunState::Terminated,
        diagnostic: None,
        action: RunAction::Abort(PipelineError::Coordination),
    }
}

/// The decision for a state and an event.
pub open spec fn decide(state: RunState, event: RunEvent) -> Decision {
    match (state, event) {
        (RunState::Uninitialized, RunEvent::CoordinatorReady { rank, size }) => {
            if 0 <= rank < size {
                Decision {
                    next: RunState::Initialized { rank },
                    diagnostic: None,
                    action: RunAction::CountColumns { announce: rank == 0 },
                }
            } else {
                out_of_turn()
            }
        },
        (RunState::Uninitialized, RunEvent::CoordinatorFailed) => out_of_turn(),
        (RunState::Initialized { rank }, RunEvent::ColumnCounts(counts)) => {
            if all_equal_counts(counts@) {
                Decision {
                    next: RunState::SchemaChecked { rank, consistent: true },
                    diagnostic: None,
                    action: RunAction::Barrier,
                }
            } else {
                Decision {
                    next: RunState::SchemaChecked { rank, consistent: false },
                    diagnostic: None,
                    action: RunAction::ReportMismatch { announce: rank == 0 },
                }
            }
        },
        (RunState::Initialized { rank }, RunEvent::CountFailed(e)) => Decision {
            next: RunState::Terminated,
            diagnostic: None,
            action: RunAction::Abort(e),
        },
        (RunState::SchemaChecked { rank, consistent }, RunEvent::BarrierPassed) => {
            if consistent && rank == 0 {
                Decision {
                    next: RunState::Aggregating { rank, pair: 0 },
                    diagnostic: None,
                    action: RunAction::RunSum { first_input: 0, second_input: 1, output_rank: 0 },
                }
            } else if consistent {
                Decision { next: RunState::Terminated, diagnostic: None, action: RunAction::Finish }
            } else {
                out_of_turn()
            }
        },
        (RunState::SchemaChecked { rank, consistent }, RunEvent::Acknowledged) => {
            if !consistent {
                Decision { next: RunState::Terminated, diagnostic: None, action: RunAction::Finish }
            } else {
                out_of_turn()
            }
        },
        (RunState::Aggregating { rank, pair }, RunEvent::JobFinished(failure)) => {
            if pair == 0 {
                Decision {
                    next: RunState::Aggregating { rank, pair: 1 },
                    diagnostic: failure,
                    action: RunAction::RunSum { first_input: 2, second_input: 3, output_rank: 1 },
                }
            } else {
                Decision {
                    next: RunState::Merging { rank },
                    diagnostic: failure,
                    action: RunAction::RunMerge { first_rank: 0, second_rank: 1, output_rank: rank },
                }
            }
        },
        (RunState::Merging { rank }, RunEvent::JobFinished(failure)) => Decision {
            next: RunState::Reported { rank },
            diagnostic: failure,
            action: RunAction::ReportElapsed,
        },
        (RunState::Reported { rank }, RunEvent::Acknowledged) => Decision {
            next: RunState::Terminated,
            diagnostic: None,
            action: RunAction::Finish,
        },
        _ => out_of_turn(),
    }
}

/// Decides what a process does next, from the state of its run and from
/// what happened since the last decision.
pub fn step(state: RunState, event: RunEvent) -> (decision: Decision)
    ensures
        decision == decide(state, event),
        decision.action.writes() ==> state.agreed() && decision.next.agreed(),
        state.closed() ==> decision.next.closed() && !decision.action.writes(),
{
    let stop = Decision {
        next: RunState::Terminated,
        diagnostic: None,
        action: RunAction::Abort(PipelineError::Coordination),
    };
    match state {
        RunState::Uninitialized => match event {
            RunEvent::CoordinatorReady { rank, size } => match Coordinator::new(rank, size) {
                Ok(coordinator) => Decision {
                    next: RunState::Initialized { rank: coordinator.rank() },
                    diagnostic: None,
                    action: RunAction::CountColumns { announce: coordinator.is_primary() },
                },
                Err(_) => stop,
            },
            _ => stop,
        },
        RunState::Initialized { rank } => match event {
            RunEvent::ColumnCounts(counts) => {
                if all_equal(counts.as_slice()) {
                    Decision {
                        next: RunState::SchemaChecked { rank, consistent: true },
                        diagnostic: None,
                        action: RunAction::Barrier,
                    }
                } else {
                    Decision {
                        next: RunState::SchemaChecked { rank, consistent: false },
                        diagnostic: None,
                        action: RunAction::ReportMismatch { announce: rank == 0 },
                    }
                }
            },
            RunEvent::CountFailed(e) => Decision {
                next: RunState::Terminated,
                diagnostic: None,
                action: RunAction::Abort(e),
            },
            _ => stop,
        },
        RunState::SchemaChecked { rank, consistent } => match event {
            RunEvent::BarrierPassed => {
                if consistent && rank == 0 {
                    Decision {
                        next: RunState::Aggregating { rank, pair: 0 },
                        diagnostic: None,
                        action: RunAction::RunSum {
                            first_input: 0,
                            second_input: 1,
                            output_rank: 0,
                        },
                    }
                } else if consistent {
                    Decision {
                        next: RunState::Terminated,
                        diagnostic: None,
                        action: RunAction::Finish,
                    }
                } else {
                    stop
                }
            },
            RunEvent::Acknowledged => {
                if !consistent {
                    Decision {
                        next: RunState::Terminated,
                        diagnostic: None,
                        action: RunAction::Finish,
                    }
                } else {
                    stop
                }
            },
            _ => stop,
        },
        RunState::Aggregating { rank, pair } => match event {
            RunEvent::JobFinished(failure) => {
                if pair == 0 {
                    Decision {
                        next: RunState::Aggregating { rank, pair: 1 },
                        diagnostic: failure,
                        action: RunAction::RunSum {
                            first_input: 2,
                            second_input: 3,
                            output_rank: 1,
                        },
                    }
                } else {
                    Decision {
                        next: RunState::Merging { rank },
                        diagnostic: failure,
                        action: RunAction::RunMerge {
                            first_rank: 0,
                            second_rank: 1,
                            output_rank: rank,
                        },
                    }
                }
            },
            _ => stop,
        },
        RunState::Merging { rank } => match event {
            RunEvent::JobFinished(failure) => Decision {
                next: RunState::Reported { rank },
                diagnostic: failure,
                action: RunAction::ReportElapsed,
            },
            _ => stop,
        },
        RunState::Reported { rank } => match event {
            RunEvent::Acknowledged => Decision {
                next: RunState::Terminated,
                diagnostic: None,
                action: RunAction::Finish,
            },
            _ => stop,
        },
        RunState::Terminated => stop,
    }
}

/// The state of a run after a sequence of events.
pub open spec fn state_after(state: RunState, events: Seq<RunEvent>) -> RunState
    decreases events.len(),
{
    if events.len() == 0 {
        state
    } else {
        decide(state_after(state, events.drop_last()), events.last()).next
    }
}

/// The actions that a sequence of events draws from a run, one for each
/// event.
pub open spec fn actions_of(state: RunState, events: Seq<RunEvent>) -> Seq<RunAction>
    decreases events.len(),
{
    if events.len() == 0 {
        Seq::empty()
    } else {
        actions_of(state, events.drop_last()).push(
            decide(state_after(state, events.drop_last()), events.last()).action,
        )
    }
}

/// True when `event` is the report of column counts that agree.
pub open spec fn reports_agreement(event: RunEvent) -> bool {
    event matches RunEvent::ColumnCounts(counts) && all_equal_counts(counts@)
}

/// A run answers every event with one action.
pub proof fn lemma_actions_len(state: RunState, events: Seq<RunEvent>)
    ensures
        actions_of(state, events).len() == events.len(),
    decreases events.len(),
{
    if events.len() > 0 {
        lemma_actions_len(state, events.drop_last());
    }
}

/// One decision in a state from which no output can come: it creates no
/// output, and leaves the run in such a state.
pub proof fn lemma_closed_step(state: RunState, event: RunEvent)
    requires
        state.closed(),
    ensures
        decide(state, event).next.closed(),
        !decide(state, event).action.writes(),
{
}

/// One decision that creates an output: the inputs were known to agree
/// before it, and are known to agree after it.
pub proof fn lemma_writing_step(state: RunState, event: RunEvent)
    requires
        decide(state, event).action.writes(),
    ensures
        state.agreed(),
        decide(state, event).next.agreed(),
{
}

/// One decision that takes a run to a state in which the inputs are known
/// to agree: they were known to agree before, or the event reports that
/// they do.
pub proof fn lemma_agreeing_step(state: RunState, event: RunEvent)
    requires
        decide(state, event).next.agreed(),
    ensures
        state.agreed() || reports_agreement(event),
{
}

/// The run over `events` and one more event: the state and the actions of
/// the run over `events`, and then one decision more.
pub proof fn lemma_one_more_event(state: RunState, events: Seq<RunEvent>, event: RunEvent)
    ensures
        state_after(state, events.push(event)) == decide(state_after(state, events), event).next,
        actions_of(state, events.push(event)) == actions_of(state, events).push(
            decide(state_after(state, events), event).action,
        ),
{
    assert(events.push(event).drop_last() =~= events);
}

/// The run over the first `n` events is the start of the run over all of
/// them.
pub proof fn lemma_actions_prefix(state: RunState, events: Seq<RunEvent>, n: int)
    requires
        0 <= n <= events.len(),
    ensures
        actions_of(state, events.subrange(0, n)) == actions_of(state, events).subrange(0, n),
        actions_of(state, events).len() == events.len(),
    decreases events.len(),
{
    lemma_actions_len(state, events);
    if n == events.len() {
        assert(events.subrange(0, n) =~= events);
        assert(actions_of(state, events).subrange(0, n) =~= actions_of(state, events));
    } else {
        let shorter = events.drop_last();
        lemma_actions_prefix(state, shorter, n);
        lemma_actions_len(state, shorter);
        assert(shorter.subrange(0, n) =~= events.subrange(0, n));
        assert(actions_of(state, shorter).subrange(0, n) =~= actions_of(state, events).subrange(
            0,
            n,
        ));
    }
}

/// From a state from which no output can come, none comes, whatever
/// happens.
pub proof fn lemma_closed_runs_stay_closed(state: RunState, events: Seq<RunEvent>)
    requires
        state.closed(),
    ensures
        state_after(state, events).closed(),
        actions_of(state, events).len() == events.len(),
        forall|k: int|
            0 <= k < events.len() ==> !(#[trigger] actions_of(state, events)[k]).writes(),
    decreases events.len(),
{
    lemma_actions_len(state, events);
    if events.len() > 0 {
        let before = events.drop_last();
        lemma_closed_runs_stay_closed(state, before);
        lemma_closed_step(state_after(state, before), events.last());
        let all = actions_of(state, events);
        assert forall|k: int| 0 <= k < events.len() implies !(#[trigger] all[k]).writes() by {
            if k < before.len() {
                assert(all[k] == actions_of(state, before)[k]);
            }
        }
    }
}

/// The run over `first + later` goes on from where the run over `first`
/// stood.
pub proof fn lemma_run_in_two_parts(start: RunState, first: Seq<RunEvent>, later: Seq<RunEvent>)
    ensures
        state_after(start, first + later) == state_after(state_after(start, first), later),
        actions_of(start, first + later) == actions_of(start, first) + actions_of(
            state_after(start, first),
            later,
        ),
    decreases later.len(),
{
    if later.len() == 0 {
        assert(first + later =~= first);
        assert(actions_of(start, first) + actions_of(state_after(start, first), later)
            =~= actions_of(start, first));
    } else {
        let shorter = later.drop_last();
        lemma_run_in_two_parts(start, first, shorter);
        assert((first + later).drop_last() =~= first + shorter);
        assert((first + later).last() == later.last());
        let middle = state_after(start, first);
        assert(actions_of(start, first + later) =~= actions_of(start, first) + actions_of(
            middle,
            later,
        ));
    }
}

/// Schema gate. Where the column counts that are reported to an initialized
/// run disagree, no action of the run creates an output file, whatever
/// happens afterwards.
pub proof fn law_schema_gate(rank: i32, counts: Vec<usize>, later: Seq<RunEvent>)
    requires
        !all_equal_counts(counts@),
    ensures
        actions_of(
            RunState::Initialized { rank },
            seq![RunEvent::ColumnCounts(counts)] + later,
        ).len() == 1 + later.len(),
        forall|k: int|
            0 <= k < 1 + later.len() ==> !(#[trigger] actions_of(
                RunState::Initialized { rank },
                seq![RunEvent::ColumnCounts(counts)] + later,
            )[k]).writes(),
{
    let start = RunState::Initialized { rank };
    let report = RunEvent::ColumnCounts(counts);
    let first = seq![report];
    assert(first =~= Seq::<RunEvent>::empty().push(report));
    lemma_one_more_event(start, Seq::<RunEvent>::empty(), report);
    let middle = state_after(start, first);
    assert(middle == decide(start, report).next);
    assert(middle.closed());
    assert(actions_of(start, first) =~= seq![decide(start, report).action]);
    lemma_run_in_two_parts(start, first, later);
    lemma_closed_runs_stay_closed(middle, later);
    let all = actions_of(start, first + later);
    assert forall|k: int| 0 <= k < 1 + later.len() implies !(#[trigger] all[k]).writes() by {
        if k >= 1 {
            assert(all[k] == actions_of(middle, later)[k - 1]);
        }
    }
}

/// A run from its start is in a state in which the inputs are known to
/// agree only after a report of agreeing counts.
pub proof fn lemma_agreement_has_a_cause(events: Seq<RunEvent>) -> (j: int)
    requires
        state_after(RunState::Uninitialized, events).agreed(),
    ensures
        0 <= j < events.len(),
        reports_agreement(events[j]),
    decreases events.len(),
{
    if events.len() == 0 {
        0
    } else {
        let before = events.drop_last();
        let state = state_after(RunState::Uninitialized, before);
        lemma_agreeing_step(state, events.last());
        if state.agreed() {
            let j = lemma_agreement_has_a_cause(before);
            assert(before[j] == events[j]);
            j
        } else {
            events.len() - 1
        }
    }
}

/// No output file is created before column counts that agree have been
/// reported: if action `k` of a run from its start creates an output, one of
/// the events before event `k` is a report of agreeing counts.
pub proof fn law_outputs_need_agreement(events: Seq<RunEvent>, k: int) -> (j: int)
    requires
        0 <= k < events.len(),
        actions_of(RunState::Uninitialized, events)[k].writes(),
    ensures
        0 <= j < k,
        reports_agreement(events[j]),
{
    let start = RunState::Uninitialized;
    lemma_actions_len(start, events);
    let upto = events.subrange(0, k + 1);
    lemma_actions_prefix(start, events, k + 1);
    let before = upto.drop_last();
    assert(before =~= events.subrange(0, k));
    let state = state_after(start, before);
    assert(actions_of(start, upto)[k] == actions_of(start, events)[k]);
    lemma_actions_len(start, before);
    assert(actions_of(start, upto)[k] == decide(state, upto.last()).action);
    lemma_writing_step(state, upto.last());
    let j = lemma_agreement_has_a_cause(before);
    assert(before[j] == events[j]);
    j
}

/// The job that a writing action stands for, over the names of the inputs:
/// `None` for the other actions and where an input is missing.
pub open spec fn job_for(action: RunAction, inputs: Seq<Seq<char>>) -> Option<MergeJobView> {
    match action {
        RunAction::RunSum { first_input, second_input, output_rank } => {
            if first_input < inputs.len() && second_input < inputs.len() {
                Some(
                    job_of(
                        JobMode::Sum,
                        inputs[first_input as int],
                        inputs[second_input as int],
                        output_rank as int,
                    ),
                )
            } else {
                None
            }
        },
        RunAction::RunMerge { first_rank, second_rank, output_rank } => Some(
            job_of(
                JobMode::Concat,
                output_name_text(JobMode::Sum, first_rank as int),
                output_name_text(JobMode::Sum, second_rank as int),
                output_rank as int,
            ),
        ),
        _ => None,
    }
}

/// Describes the job that an action stands for: its two inputs, its output
/// and its mode. A sum reads two of the run's inputs; the merge reads the
/// files of sums. `None` for the actions that run no job, and where the
/// run has fewer inputs than the action needs.
pub fn describe_job(action: &RunAction, inputs: &Vec<String>) -> (job: Option<MergeJob>)
    ensures
        job.is_some() == job_for(*action, inputs.deep_view()).is_some(),
        job matches Some(j) ==> job_for(*action, inputs.deep_view()) == Some(j@),
{
    match action {
        RunAction::RunSum { first_input, second_input, output_rank } => {
            if *first_input < inputs.len() && *second_input < inputs.len() {
                assert(inputs.deep_view()[*first_input as int] == inputs[*first_input as int]@);
                assert(inputs.deep_view()[*second_input as int] == inputs[*second_input as int]@);
                Some(
                    MergeJob::new(
                        JobMode::Sum,
                        inputs[*first_input].as_str(),
                        inputs[*second_input].as_str(),
                        *output_rank,
                    ),
                )
            } else {
                None
            }
        },
        RunAction::RunMerge { first_rank, second_rank, output_rank } => {
            let first = output_name(JobMode::Sum, *first_rank);
            let second = output_name(JobMode::Sum, *second_rank);
            Some(MergeJob::new(JobMode::Concat, first.as_str(), second.as_str(), *output_rank))
        },
        _ => None,
    }
}

} // verus!
