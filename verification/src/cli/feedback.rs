//! What there is to show of an outcome.

use crate::models::{
    AllocatedResource, EvaluationOutcome, ExecutionOutcome, MachineResource, WipingOutcome,
};
use vstd::prelude::*;

verus! {

/// One row of the table of usages.
#[derive(Debug)]
pub struct UsageRow {
    /// The name of the use case.
    pub what: String,
    /// The bytes attributed to it.
    pub total_size: u64,
}

/// What to show: each variant names the resource in words.
#[derive(Debug)]
pub enum Feedback {
    /// No usage of the resource was found.
    NothingFound { resource: String },
    /// A table with one row per use case, and the grand total below it.
    Usages { resource: String, rows: Vec<UsageRow>, total_size: u64 },
    /// One line that says what a wipe reclaimed.
    Reclaimed { resource: String, reclaimed: u64 },
}

/// `rows` are the rows of `resources`, in their order.
pub open spec fn rows_of(rows: Seq<UsageRow>, resources: Seq<AllocatedResource>) -> bool {
    &&& rows.len() == resources.len()
    &&& forall|i: int|
        0 <= i < rows.len() ==> (#[trigger] rows[i]).what@ == resources[i].use_case.spec_label()
            && rows[i].total_size == resources[i].amount
}

/// What to show of an evaluation: nothing found where it has no category,
/// else the table of its categories with its total.
pub open spec fn shows_usages(
    feedback: Feedback,
    resource: MachineResource,
    outcome: EvaluationOutcome,
) -> bool {
    if outcome.resources@.len() == 0 {
        feedback matches Feedback::NothingFound { resource: subject } && subject@
            == resource.spec_label()
    } else {
        &&& feedback matches Feedback::Usages { resource: subject, rows, total_size }
        &&& subject@ == resource.spec_label()
        &&& rows_of(rows@, outcome.resources@)
        &&& total_size == outcome.total_size
    }
}

/// What to show of a wipe: what it reclaimed.
pub open spec fn shows_reclaimed(
    feedback: Feedback,
    resource: MachineResource,
    outcome: WipingOutcome,
) -> bool {
    &&& feedback matches Feedback::Reclaimed { resource: subject, reclaimed }
    &&& subject@ == resource.spec_label()
    &&& reclaimed == outcome.reclaimed
}

/// What to show of an evaluation.
pub fn used_resources(resource: &MachineResource, outcome: &EvaluationOutcome) -> (feedback:
    Feedback)
    ensures
        shows_usages(feedback, *resource, *outcome),
{
    let allocated = &outcome.resources;
    if allocated.len() == 0 {
        return Feedback::NothingFound { resource: resource.label() };
    }
    let mut rows: Vec<UsageRow> = Vec::new();
    let mut i: usize = 0;
    while i < allocated.len()
        invariant
            i <= allocated.len(),
            rows_of(rows@, allocated@.take(i as int)),
        decreases allocated.len() - i,
    {
        rows.push(UsageRow { what: allocated[i].use_case.label(), total_size: allocated[i].amount });
        i += 1;
    }
    proof {
        assert(allocated@.take(allocated.len() as int) == allocated@);
    }
    Feedback::Usages { resource: resource.label(), rows, total_size: outcome.total_size }
}

/// What to show of a wipe.
pub fn cleanup_outcome(resource: &MachineResource, outcome: &WipingOutcome) -> (feedback: Feedback)
    ensures
        shows_reclaimed(feedback, *resource, *outcome),
{
    Feedback::Reclaimed { resource: resource.label(), reclaimed: outcome.reclaimed }
}

/// What to show of the outcome of a run.
pub fn show_execution_outcome(resource: &MachineResource, outcome: &ExecutionOutcome) -> (feedback:
    Feedback)
    ensures
        match *outcome {
            ExecutionOutcome::Evaluation(evaluation) => shows_usages(
                feedback,
                *resource,
                evaluation,
            ),
            ExecutionOutcome::Wiping(wiping) => shows_reclaimed(feedback, *resource, wiping),
        },
{
    match outcome {
        ExecutionOutcome::Evaluation(evaluation) => used_resources(resource, evaluation),
        ExecutionOutcome::Wiping(wiping) => cleanup_outcome(resource, wiping),
    }
}

} // verus!
