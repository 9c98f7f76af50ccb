//! The decisions of a run: check the trace, prove, verify.
//!
//! The proof backend does the work of each stage. What is decided here is
//! which stage comes next and how a run ends: a failure ends it at once,
//! under its own kind, and nothing is tried again.

use crate::arithmetic::air::ArithmeticAir;
use crate::arithmetic::row::ArithmeticRow;
use crate::fibonacci::air::FibonacciAir;
use crate::fibonacci::row::FibonacciRow;
use crate::matrix::{cells, columns};
use crate::schema::SchemaError;
use p3_matrix::dense::RowMajorMatrix;
use vstd::prelude::*;

verus! {

/// The AIRs of this crate.
#[derive(Debug, Clone, Copy, PartialEq, Eq, Structural)]
pub enum AirKind {
    /// The two-term linear recurrence.
    Recurrence,
    /// The fixed arithmetic identity.
    Identity,
}

/// Why a run did not end in a verified proof.
#[derive(Debug, Clone, Copy, PartialEq, Eq, Structural)]
pub enum RunError {
    /// The trace is not made of whole rows of the AIR's width.
    Schema(SchemaError),
    /// No valid proof can be made of the trace. Where the check of the
    /// trace found it, `violated_row` is the first row that breaks a
    /// constraint.
    Proving { violated_row: Option<usize> },
    /// The backend did not accept the proof.
    Verification,
}

/// Where a run stands.
#[derive(Debug, Clone, Copy, PartialEq, Eq)]
pub enum Stage {
    /// The trace is to be checked against the AIR.
    Checking,
    /// The trace fits the AIR; a proof is to be made.
    Proving,
    /// A proof was made; it is to be verified.
    Verifying,
    /// The run is over.
    Finished(Result<(), RunError>),
}

/// What the work of a stage came to.
#[derive(Debug, Clone, Copy, PartialEq, Eq)]
pub enum Event {
    /// The trace was checked: the first row that breaks a constraint, or
    /// the reason why the trace could not be read.
    Checked(Result<Option<usize>, SchemaError>),
    /// The backend made a proof.
    Proved,
    /// The backend could not make a proof.
    ProofFailed,
    /// The backend accepted the proof.
    Accepted,
    /// The backend rejected the proof.
    Rejected,
}

/// What is to be done in a stage.
#[derive(Debug, Clone, Copy, PartialEq, Eq)]
pub enum Action {
    /// Check the trace against the AIR.
    Check,
    /// Ask the backend for a proof.
    Prove,
    /// Ask the backend to verify the proof.
    Verify,
    /// Stop with this result.
    Stop(Result<(), RunError>),
}

/// The stage that follows `stage` on `event`. An event that does not belong
/// to the stage changes nothing.
pub open spec fn next_stage(stage: Stage, event: Event) -> Stage {
    match (stage, event) {
        (Stage::Checking, Event::Checked(Ok(None))) => Stage::Proving,
        (Stage::Checking, Event::Checked(Ok(Some(row)))) => Stage::Finished(
            Err(RunError::Proving { violated_row: Some(row) }),
        ),
        (Stage::Checking, Event::Checked(Err(e))) => Stage::Finished(Err(RunError::Schema(e))),
        (Stage::Proving, Event::Proved) => Stage::Verifying,
        (Stage::Proving, Event::ProofFailed) => Stage::Finished(
            Err(RunError::Proving { violated_row: None }),
        ),
        (Stage::Verifying, Event::Accepted) => Stage::Finished(Ok(())),
        (Stage::Verifying, Event::Rejected) => Stage::Finished(Err(RunError::Verification)),
        _ => stage,
    }
}

/// The stage that a run has reached after `events`, in order.
pub open spec fn stage_after(events: Seq<Event>) -> Stage
    decreases events.len(),
{
    if events.len() == 0 {
        Stage::Checking
    } else {
        next_stage(stage_after(events.drop_last()), events.last())
    }
}

impl AirKind {
    /// Number of columns of a trace of this AIR.
    pub open spec fn columns(self) -> nat {
        match self {
            AirKind::Recurrence => 2,
            AirKind::Identity => 4,
        }
    }

    /// Number of columns of a trace of this AIR.
    pub fn width(&self) -> (w: usize)
        ensures
            w == self.columns(),
    {
        match self {
            AirKind::Recurrence => FibonacciAir.width(),
            AirKind::Identity => ArithmeticAir.width(),
        }
    }

    /// Whether `row` is the first row of `values`, read as rows of this
    /// AIR, that breaks a constraint.
    pub open spec fn is_first_violation(self, values: Seq<u32>, row: int) -> bool {
        match self {
            AirKind::Recurrence => crate::fibonacci::air::is_first_violation(
                FibonacciRow::unflatten(values),
                row,
            ),
            AirKind::Identity => crate::arithmetic::air::is_first_violation(
                ArithmeticRow::unflatten(values),
                row,
            ),
        }
    }

    /// Whether `values`, read as rows of this AIR, break no constraint.
    pub open spec fn is_satisfied(self, values: Seq<u32>) -> bool {
        match self {
            AirKind::Recurrence => crate::fibonacci::air::satisfies_constraints(
                FibonacciRow::unflatten(values),
            ),
            AirKind::Identity => crate::arithmetic::air::satisfies_constraint(
                ArithmeticRow::unflatten(values),
            ),
        }
    }

    /// Checks a trace against this AIR: the work of [`Action::Check`].
    pub fn check(&self, trace: &RowMajorMatrix<u32>) -> (event: Event)
        ensures
            columns(*trace) != self.columns() ==> event == Event::Checked(
                Err(
                    SchemaError::WidthMismatch {
                        expected: self.columns() as usize,
                        found: columns(*trace) as usize,
                    },
                ),
            ),
            columns(*trace) == self.columns() && cells(*trace).len() % self.columns() != 0
                ==> event == Event::Checked(
                Err(
                    SchemaError::RaggedBuffer {
                        width: self.columns() as usize,
                        len: cells(*trace).len() as usize,
                    },
                ),
            ),
            columns(*trace) == self.columns() && cells(*trace).len() % self.columns() == 0
                ==> match event {
                Event::Checked(Ok(Some(row))) => self.is_first_violation(
                    cells(*trace),
                    row as int,
                ),
                Event::Checked(Ok(None)) => self.is_satisfied(cells(*trace)),
                _ => false,
            },
    {
        match self {
            AirKind::Recurrence => Event::Checked(FibonacciAir.first_violation(trace)),
            AirKind::Identity => Event::Checked(ArithmeticAir.first_violation(trace)),
        }
    }
}

impl Stage {
    /// The stage in which every run starts.
    pub fn start() -> (stage: Stage)
        ensures
            stage == Stage::Checking,
    {
        Stage::Checking
    }

    /// What is to be done in this stage.
    pub fn action(&self) -> (action: Action)
        ensures
            action == match *self {
                Stage::Checking => Action::Check,
                Stage::Proving => Action::Prove,
                Stage::Verifying => Action::Verify,
                Stage::Finished(result) => Action::Stop(result),
            },
    {
        match self {
            Stage::Checking => Action::Check,
            Stage::Proving => Action::Prove,
            Stage::Verifying => Action::Verify,
            Stage::Finished(result) => Action::Stop(*result),
        }
    }

    /// The stage that follows this one on `event`.
    pub fn advance(self, event: Event) -> (stage: Stage)
        ensures
            stage == next_stage(self, event),
    {
        match (self, event) {
            (Stage::Checking, Event::Checked(Ok(None))) => Stage::Proving,
            (Stage::Checking, Event::Checked(Ok(Some(row)))) => Stage::Finished(
                Err(RunError::Proving { violated_row: Some(row) }),
            ),
            (Stage::Checking, Event::Checked(Err(e))) => Stage::Finished(Err(RunError::Schema(e))),
            (Stage::Proving, Event::Proved) => Stage::Verifying,
            (Stage::Proving, Event::ProofFailed) => Stage::Finished(
                Err(RunError::Proving { violated_row: None }),
            ),
            (Stage::Verifying, Event::Accepted) => Stage::Finished(Ok(())),
            (Stage::Verifying, Event::Rejected) => Stage::Finished(Err(RunError::Verification)),
            (stage, _) => stage,
        }
    }
}

/// A run that is over stays as it ended: nothing is tried again.
pub proof fn lemma_finished_is_final(result: Result<(), RunError>, event: Event)
    ensures
        next_stage(Stage::Finished(result), event) == Stage::Finished(result),
{
}

/// Whatever events follow the end of a run, it stays as it ended.
pub proof fn lemma_finished_stays(events: Seq<Event>, more: Seq<Event>)
    requires
        stage_after(events) is Finished,
    ensures
        stage_after(events + more) == stage_after(events),
    decreases more.len(),
{
    if more.len() == 0 {
        assert(events + more == events);
    } else {
        lemma_finished_stays(events, more.drop_last());
        assert((events + more).drop_last() == events + more.drop_last());
    }
}

/// A trace that breaks a constraint ends the run as a proving failure
/// before the backend is asked for anything.
pub proof fn lemma_violation_ends_run(row: usize, more: Seq<Event>)
    ensures
        stage_after(
            seq![Event::Checked(Ok::<Option<usize>, SchemaError>(Some(row)))] + more,
        ) == Stage::Finished(Err::<(), RunError>(RunError::Proving { violated_row: Some(row) })),
{
    let first = seq![Event::Checked(Ok::<Option<usize>, SchemaError>(Some(row)))];
    assert(first.drop_last() == Seq::<Event>::empty());
    assert(stage_after(first.drop_last()) == Stage::Checking);
    lemma_finished_stays(first, more);
}

/// A run ends in success only when the backend accepts the proof: success
/// is reached from the verifying stage alone, and on acceptance alone.
pub proof fn lemma_success_needs_acceptance(stage: Stage, event: Event)
    requires
        next_stage(stage, event) == Stage::Finished(Ok::<(), RunError>(())),
    ensures
        stage == Stage::Finished(Ok::<(), RunError>(())) || (stage == Stage::Verifying && event
            == Event::Accepted),
{
}

/// A run that ended in success has seen, in this order, a trace that breaks
/// no constraint, a proof made and the proof accepted.
pub proof fn lemma_success_has_all_stages(events: Seq<Event>)
    requires
        stage_after(events) == Stage::Finished(Ok::<(), RunError>(())),
    ensures
        exists|i: int, j: int, k: int|
            0 <= i < j < k < events.len() && events[i] == Event::Checked(
                Ok::<Option<usize>, SchemaError>(None::<usize>),
            ) && events[j] == Event::Proved && events[k] == Event::Accepted,
    decreases events.len(),
{
    let ok = Stage::Finished(Ok::<(), RunError>(()));
    let checked = Event::Checked(Ok::<Option<usize>, SchemaError>(None::<usize>));
    if events.len() > 0 {
        let before = events.drop_last();
        if stage_after(before) == ok {
            lemma_success_has_all_stages(before);
            let (i, j, k) = choose|i: int, j: int, k: int|
                0 <= i < j < k < before.len() && before[i] == checked && before[j] == Event::Proved
                    && before[k] == Event::Accepted;
            assert(events[i] == checked && events[j] == Event::Proved && events[k]
                == Event::Accepted);
        } else {
            let k = events.len() - 1;
            let j = lemma_reached(before, Stage::Verifying);
            let i = lemma_reached(before.take(j), Stage::Proving);
            assert(events[i] == checked && events[j] == Event::Proved && events[k]
                == Event::Accepted);
        }
    }
}

/// The event on which a run first stood in `stage`, for a stage other than
/// the first.
proof fn lemma_reached(events: Seq<Event>, stage: Stage) -> (at: int)
    requires
        stage_after(events) == stage,
        stage == Stage::Proving || stage == Stage::Verifying,
    ensures
        0 <= at < events.len(),
        stage_after(events.take(at)) != stage,
        stage_after(events.take(at + 1)) == stage,
        stage == Stage::Proving ==> stage_after(events.take(at)) == Stage::Checking && events[at]
            == Event::Checked(Ok::<Option<usize>, SchemaError>(None::<usize>)),
        stage == Stage::Verifying ==> stage_after(events.take(at)) == Stage::Proving && events[at]
            == Event::Proved,
    decreases events.len(),
{
    let before = events.drop_last();
    assert(events.take(events.len() as int) == events);
    if stage_after(before) == stage {
        let at = lemma_reached(before, stage);
        assert(before.take(at) == events.take(at));
        assert(before.take(at + 1) == events.take(at + 1));
        at
    } else {
        events.len() - 1
    }
}

} // verus!
