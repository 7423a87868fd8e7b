//! How a removal went. Removing is the caller's work; what its outcomes
//! mean is decided here.

use vstd::prelude::*;

verus! {

/// What became of one directory that was to be removed.
#[derive(Debug, Clone, Copy, PartialEq, Eq, Structural)]
pub enum RemovalOutcome {
    /// The directory and all below it are gone.
    Removed,
    /// There was no such directory, which is as good as removed.
    AlreadyAbsent,
    /// The directory could not be removed.
    Failed,
}

/// `failures` lists, in ascending order, exactly the positions of the
/// outcomes that are failures.
pub open spec fn collects_failures(failures: Seq<usize>, outcomes: Seq<RemovalOutcome>) -> bool {
    &&& forall|i: int, j: int|
        0 <= i < j < failures.len() ==> (#[trigger] failures[i]) < (#[trigger] failures[j])
    &&& forall|i: int|
        0 <= i < failures.len() ==> (#[trigger] failures[i]) < outcomes.len()
            && outcomes[failures[i] as int] == RemovalOutcome::Failed
    &&& forall|at: int|
        0 <= at < outcomes.len() && (#[trigger] outcomes[at]) == RemovalOutcome::Failed
            ==> failures.contains(at as usize)
}

/// Collects the targets that were not removed. A target that was already
/// absent is no failure, and a failure does not hide the outcomes after it:
/// every outcome is looked at. The caller warns that some resources were
/// not removed when the result is not empty.
pub fn cleanup_resources(outcomes: &Vec<RemovalOutcome>) -> (failures: Vec<usize>)
    ensures
        collects_failures(failures@, outcomes@),
{
    let mut failures: Vec<usize> = Vec::new();
    let mut i: usize = 0;
    while i < outcomes.len()
        invariant
            i <= outcomes.len(),
            collects_failures(failures@, outcomes@.take(i as int)),
        decreases outcomes.len() - i,
    {
        let ghost before = failures@;
        let failed = match outcomes[i] {
            RemovalOutcome::Failed => true,
            _ => false,
        };
        if failed {
            failures.push(i);
            proof {
                assert forall|at: int|
                    0 <= at < i + 1 && (#[trigger] outcomes@.take(i + 1)[at])
                        == RemovalOutcome::Failed implies failures@.contains(at as usize) by {
                    if at < i {
                        assert(outcomes@.take(i as int)[at] == RemovalOutcome::Failed);
                        let k = choose|k: int| 0 <= k < before.len() && before[k] == at as usize;
                        assert(failures@[k] == at as usize);
                    } else {
                        assert(failures@[before.len() as int] == at as usize);
                    }
                }
            }
        } else {
            proof {
                assert forall|at: int|
                    0 <= at < i + 1 && (#[trigger] outcomes@.take(i + 1)[at])
                        == RemovalOutcome::Failed implies failures@.contains(at as usize) by {
                    assert(outcomes@.take(i as int)[at] == RemovalOutcome::Failed);
                }
            }
        }
        i += 1;
    }
    proof {
        assert(outcomes@.take(outcomes.len() as int) == outcomes@);
    }
    failures
}

} // verus!
