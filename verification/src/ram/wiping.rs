//! Which processes a wipe terminates. Sending the signal is the caller's
//! work.

use crate::models::MemoryCached;
use crate::ram::resources::{memory_type, memory_type_from_jvm_launcher_class};
use crate::ram::JvmProcess;
use crate::text::lowercased;
use vstd::prelude::*;

verus! {

/// The process id to signal, if the kind of the process is to be removed.
pub open spec fn targeted(process: JvmProcess, caches: Seq<MemoryCached>) -> Option<u32> {
    if caches.contains(memory_type(lowercased(process.launcher_class@))) {
        Some(process.pid)
    } else {
        None
    }
}

fn is_selected(caches: &Vec<MemoryCached>, cached: MemoryCached) -> (selected: bool)
    ensures
        selected == caches@.contains(cached),
{
    let mut i: usize = 0;
    while i < caches.len()
        invariant
            i <= caches.len(),
            forall|k: int| 0 <= k < i ==> caches@[k] != cached,
        decreases caches.len() - i,
    {
        if caches[i] == cached {
            return true;
        }
        i += 1;
    }
    false
}

/// The process ids to signal: those of the processes whose kind is among
/// `caches`, in the order of the processes.
pub open spec fn termination_targets(processes: Seq<JvmProcess>, caches: Seq<MemoryCached>) -> Seq<
    u32,
> {
    processes.filter_map(|process: JvmProcess| targeted(process, caches))
}

/// The processes to terminate: every process whose kind is among `caches`,
/// in the order in which the processes were found. The caller signals each
/// of them, also after a signal has failed.
pub fn cleanup_memory(processes: &Vec<JvmProcess>, caches: &Vec<MemoryCached>) -> (pids: Vec<u32>)
    ensures
        pids@ == termination_targets(processes@, caches@),
{
    let mut pids: Vec<u32> = Vec::new();
    let mut i: usize = 0;
    while i < processes.len()
        invariant
            i <= processes.len(),
            pids@ == termination_targets(processes@.take(i as int), caches@),
        decreases processes.len() - i,
    {
        proof {
            assert(processes@.take(i + 1).drop_last() == processes@.take(i as int));
        }
        let cache_type = memory_type_from_jvm_launcher_class(processes[i].launcher_class.as_str());
        if is_selected(caches, cache_type) {
            pids.push(processes[i].pid);
        }
        i += 1;
    }
    proof {
        assert(processes@.take(processes.len() as int) == processes@);
    }
    pids
}

/// How many of `signals` are `true`.
pub open spec fn killed(signals: Seq<bool>) -> nat
    decreases signals.len(),
{
    if signals.len() == 0 {
        0
    } else if signals.last() {
        killed(signals.drop_last()) + 1
    } else {
        killed(signals.drop_last())
    }
}

/// How many processes were terminated, given for each signal that was sent
/// whether it succeeded.
pub fn count_killed(signals: &Vec<bool>) -> (count: u64)
    ensures
        count == killed(signals@),
{
    let mut count: u64 = 0;
    let mut i: usize = 0;
    while i < signals.len()
        invariant
            i <= signals.len(),
            count == killed(signals@.take(i as int)),
            count <= i,
        decreases signals.len() - i,
    {
        proof {
            assert(signals@.take(i + 1).drop_last() == signals@.take(i as int));
        }
        if signals[i] {
            count += 1;
        }
        i += 1;
    }
    proof {
        assert(signals@.take(signals.len() as int) == signals@);
    }
    count
}

} // verus!
