//! What the running JVM processes hold: resident memory per kind of
//! process.

use crate::accounting::{group_by_use_case, summarizes};
use crate::models::{AllocatedResource, MemoryCached, UseCase};
use crate::ram::JvmProcess;
use crate::text::{contains, has_infix, lowercase, lowercased};
use vstd::prelude::*;

verus! {

/// The kind of process that a launch identity in lower case stands for.
/// The rules are tried in this order: the Kotlin compiler daemon, then the
/// Gradle daemon, and every other identity is some other JVM process.
pub open spec fn memory_type(lowered: Seq<char>) -> MemoryCached {
    if has_infix(lowered, "kotlin"@) {
        MemoryCached::KotlinCompilerDaemon
    } else if has_infix(lowered, "gradle"@) {
        MemoryCached::GradleBuildDaemon
    } else {
        MemoryCached::OtherJavaProcess
    }
}

/// Classifies a launch identity that is already in lower case.
pub fn memory_type_from_lowercase(lowered: &str) -> (cached: MemoryCached)
    ensures
        cached == memory_type(lowered@),
{
    if contains(lowered, "kotlin") {
        MemoryCached::KotlinCompilerDaemon
    } else if contains(lowered, "gradle") {
        MemoryCached::GradleBuildDaemon
    } else {
        MemoryCached::OtherJavaProcess
    }
}

/// Classifies a launch identity, whatever its case. Every identity has a
/// kind.
pub fn memory_type_from_jvm_launcher_class(launcher_class_name: &str) -> (cached: MemoryCached)
    ensures
        cached == memory_type(lowercased(launcher_class_name@)),
{
    let lowered = lowercase(launcher_class_name);
    memory_type_from_lowercase(lowered.as_str())
}

/// The kind and the resident memory of a process, or nothing for a process
/// that the process table no longer has.
pub fn convert_to_allocated_resources(
    launcher_class_name: &str,
    resident_memory: Option<u64>,
) -> (converted: Option<(MemoryCached, u64)>)
    ensures
        converted == match resident_memory {
            Some(memory) => Some((memory_type(lowercased(launcher_class_name@)), memory)),
            None => None,
        },
{
    match resident_memory {
        Some(memory) => Some((memory_type_from_jvm_launcher_class(launcher_class_name), memory)),
        None => None,
    }
}

/// What one process contributes: its resident memory for its kind, and
/// nothing once it is gone.
pub open spec fn memory_measurement(process: JvmProcess) -> Option<AllocatedResource> {
    match process.resident_memory {
        Some(memory) => Some(
            AllocatedResource {
                use_case: UseCase::Memory(memory_type(lowercased(process.launcher_class@))),
                amount: memory,
            },
        ),
        None => None,
    }
}

/// The measurements of the processes, process by process.
pub open spec fn memory_measurements(processes: Seq<JvmProcess>) -> Seq<AllocatedResource> {
    processes.filter_map(|process: JvmProcess| memory_measurement(process))
}

/// The measurements of the processes that are still there.
pub fn measure_processes(processes: &Vec<JvmProcess>) -> (measurements: Vec<AllocatedResource>)
    ensures
        measurements@ == memory_measurements(processes@),
{
    let mut measurements: Vec<AllocatedResource> = Vec::new();
    let mut i: usize = 0;
    while i < processes.len()
        invariant
            i <= processes.len(),
            measurements@ == memory_measurements(processes@.take(i as int)),
        decreases processes.len() - i,
    {
        proof {
            assert(processes@.take(i + 1).drop_last() == processes@.take(i as int));
        }
        let process = &processes[i];
        match convert_to_allocated_resources(
            process.launcher_class.as_str(),
            process.resident_memory,
        ) {
            Some((cached, memory)) => {
                measurements.push(AllocatedResource::new(UseCase::from(cached), memory));
            },
            None => {},
        }
        i += 1;
    }
    proof {
        assert(processes@.take(processes.len() as int) == processes@);
    }
    measurements
}

/// The memory that the running JVM processes hold: one entry per kind of
/// process that is running, in the order of use cases, each with the
/// resident memory of its processes. A process that is gone by the time
/// the process table is asked counts for nothing.
pub fn find_resources_used_by_jvm(processes: &Vec<JvmProcess>) -> (resources: Vec<
    AllocatedResource,
>)
    ensures
        summarizes(resources@, memory_measurements(processes@)),
        processes@.len() == 0 ==> resources@.len() == 0,
{
    let resources = group_by_use_case(measure_processes(processes));
    proof {
        crate::accounting::lemma_summary_of_nothing(resources@, memory_measurements(processes@));
    }
    resources
}

} // verus!
