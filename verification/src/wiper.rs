//! The wipe as a machine of states: what to measure, what to remove, and
//! what was reclaimed. The machine asks for one piece of outside work at a
//! time and is told what came of it.
//!
//! An evaluation measures once and ends. A wipe measures, removes, measures
//! again and reports the difference of the two totals, so that what it
//! reports is what was freed, whatever became of each removal.

use crate::accounting::{
    calculate_total_allocated, grand_total, group_by_use_case, lemma_summary_keeps_total,
    lemma_summary_of_nothing, summarizes,
};
use crate::amount::{byte_unit_difference, clamp};
use crate::disk::locations::{associated_filepaths, find_associated_filepaths};
use crate::disk::operations::RemovalOutcome;
use crate::disk::resources::{
    attributed_files, gradle_home_files, measure_files, measure_gradle_home, measured,
    projects_measured, projects_scan_failure, scan_failure, FileFilter,
};
use crate::disk::{DiskEntry, ProjectListing, ScanError};
use crate::models::{
    AllocatedResource, DiskCached, EvaluationOutcome, ExecutionOutcome, MachineResource,
    MemoryCached, ProjectLevelDiskCache, UseCase, UserLevelDiskCache, WipeAction, WipingOutcome,
};
use crate::ram::resources::{find_resources_used_by_jvm, memory_measurements};
use crate::ram::wiping::{cleanup_memory, count_killed, killed, termination_targets};
use crate::ram::JvmProcess;
use vstd::prelude::*;

verus! {

/// What one walk of the disk found: the user's home directory, the walks
/// of the Gradle home and of the local Maven repository, and the Gradle
/// projects, each with the walk of its directory. A directory that is not
/// there has an empty walk.
#[derive(Debug)]
pub struct DiskSnapshot {
    pub user_home: String,
    pub gradle_home: Vec<DiskEntry>,
    pub maven_local: Vec<DiskEntry>,
    pub projects: Vec<ProjectListing>,
}

/// The build output files of all projects, project after project.
pub open spec fn project_files(projects: Seq<ProjectListing>) -> Seq<AllocatedResource>
    decreases projects.len(),
{
    if projects.len() == 0 {
        Seq::empty()
    } else {
        project_files(projects.drop_last()) + attributed_files(
            projects.last().entries@,
            FileFilter::BuildOutputFile,
            UseCase::Disk(DiskCached::Standalone(ProjectLevelDiskCache::BuildOutput)),
        )
    }
}

/// Everything that an evaluation of the disk counts: the union of its
/// three scans. Files of the Gradle home count for the cache that their
/// path belongs to, files of the local Maven repository for that
/// repository, and build output files of the projects for build output.
pub open spec fn disk_measurements(snapshot: DiskSnapshot) -> Seq<AllocatedResource> {
    gradle_home_files(snapshot.gradle_home@) + attributed_files(
        snapshot.maven_local@,
        FileFilter::EveryFile,
        UseCase::Disk(DiskCached::Shared(UserLevelDiskCache::MavenLocalRepository)),
    ) + project_files(snapshot.projects@)
}

/// Every entry of every walk of the snapshot has its metadata.
pub open spec fn snapshot_measured(snapshot: DiskSnapshot) -> bool {
    &&& measured(snapshot.gradle_home@)
    &&& measured(snapshot.maven_local@)
    &&& projects_measured(snapshot.projects@)
}

/// `error` names the first entry without metadata in the first walk that
/// has one: the Gradle home comes first, then the local Maven repository,
/// then the projects in their order.
pub open spec fn snapshot_scan_failure(snapshot: DiskSnapshot, error: ScanError) -> bool {
    ||| scan_failure(snapshot.gradle_home@, error)
    ||| measured(snapshot.gradle_home@) && scan_failure(snapshot.maven_local@, error)
    ||| measured(snapshot.gradle_home@) && measured(snapshot.maven_local@)
        && projects_scan_failure(snapshot.projects@, error)
}

/// `evaluation` is the evaluation of `items`: their aggregation per use
/// case, with the saturated sum of all of them as the total.
pub open spec fn evaluates(evaluation: EvaluationOutcome, items: Seq<AllocatedResource>) -> bool {
    &&& summarizes(evaluation.resources@, items)
    &&& evaluation.total_size == clamp(grand_total(items) as int)
    &&& evaluation.total_size == clamp(grand_total(evaluation.resources@) as int)
}

/// What holds of every evaluation: its categories are in strictly
/// ascending order, so none comes twice, and its total is the saturated
/// sum of their amounts.
pub open spec fn consistent(evaluation: EvaluationOutcome) -> bool {
    &&& forall|i: int, j: int|
        0 <= i < j < evaluation.resources@.len() ==> (
        #[trigger] evaluation.resources@[i]).use_case.spec_rank() < (
        #[trigger] evaluation.resources@[j]).use_case.spec_rank()
    &&& evaluation.total_size == clamp(grand_total(evaluation.resources@) as int)
}

/// The evaluation of any measurements is consistent.
pub proof fn lemma_evaluation_is_consistent(
    evaluation: EvaluationOutcome,
    items: Seq<AllocatedResource>,
)
    requires
        evaluates(evaluation, items),
    ensures
        consistent(evaluation),
{
}

/// An evaluation of nothing has no category and total zero.
pub proof fn lemma_evaluation_of_nothing(evaluation: EvaluationOutcome)
    requires
        evaluates(evaluation, Seq::<AllocatedResource>::empty()),
    ensures
        evaluation.resources@.len() == 0,
        evaluation.total_size == 0,
{
    lemma_summary_of_nothing(evaluation.resources@, Seq::<AllocatedResource>::empty());
}

/// The totals of an evaluation add up: the total is the sum of the amounts
/// per category, and that is the sum of the sizes of everything that was
/// counted, as long as that sum is a byte count.
pub proof fn lemma_evaluation_adds_up(evaluation: EvaluationOutcome, items: Seq<AllocatedResource>)
    requires
        evaluates(evaluation, items),
        grand_total(items) <= u64::MAX,
    ensures
        evaluation.total_size == grand_total(evaluation.resources@),
        grand_total(evaluation.resources@) == grand_total(items),
{
    lemma_summary_keeps_total(evaluation.resources@, items);
}

fn evaluation_of(items: Vec<AllocatedResource>) -> (evaluation: EvaluationOutcome)
    ensures
        evaluates(evaluation, items@),
{
    let ghost counted = items@;
    let resources = group_by_use_case(items);
    let total = calculate_total_allocated(&resources);
    proof {
        lemma_summary_keeps_total(resources@, counted);
    }
    EvaluationOutcome::new(resources, total)
}

fn measure_projects(projects: &Vec<ProjectListing>) -> (result: Result<
    Vec<AllocatedResource>,
    ScanError,
>)
    ensures
        match result {
            Ok(files) => projects_measured(projects@) && files@ == project_files(projects@),
            Err(error) => projects_scan_failure(projects@, error),
        },
{
    let use_case = UseCase::from(ProjectLevelDiskCache::BuildOutput);
    let mut files: Vec<AllocatedResource> = Vec::new();
    let mut i: usize = 0;
    while i < projects.len()
        invariant
            i <= projects.len(),
            use_case == UseCase::Disk(DiskCached::Standalone(ProjectLevelDiskCache::BuildOutput)),
            projects_measured(projects@.take(i as int)),
            files@ == project_files(projects@.take(i as int)),
        decreases projects.len() - i,
    {
        proof {
            assert(projects@.take(i + 1).drop_last() == projects@.take(i as int));
        }
        match measure_files(&projects[i].entries, FileFilter::BuildOutputFile, use_case) {
            Err(error) => {
                return Err(error);
            },
            Ok(mut found) => {
                files.append(&mut found);
            },
        }
        proof {
            assert forall|p: int| 0 <= p < i + 1 implies measured(
                (#[trigger] projects@.take(i + 1)[p]).entries@,
            ) by {
                if p < i {
                    assert(measured(projects@.take(i as int)[p].entries@));
                }
            }
        }
        i += 1;
    }
    proof {
        assert(projects@.take(projects.len() as int) == projects@);
    }
    Ok(files)
}

/// Evaluates the disk: the three scans of the snapshot, unioned and
/// aggregated per use case, with their total. A snapshot of empty walks
/// evaluates to no category and total zero. A walk with an entry that has
/// no metadata is not evaluated.
pub fn evaluate_disk_space(snapshot: &DiskSnapshot) -> (result: Result<
    EvaluationOutcome,
    ScanError,
>)
    ensures
        match result {
            Ok(evaluation) => snapshot_measured(*snapshot) && evaluates(
                evaluation,
                disk_measurements(*snapshot),
            ),
            Err(error) => snapshot_scan_failure(*snapshot, error),
        },
        snapshot.gradle_home@.len() == 0 && snapshot.maven_local@.len() == 0
            && snapshot.projects@.len() == 0 ==> result is Ok && result->Ok_0.resources@.len() == 0
            && result->Ok_0.total_size == 0,
{
    let mut items = match measure_gradle_home(&snapshot.gradle_home) {
        Err(error) => {
            return Err(error);
        },
        Ok(files) => files,
    };
    let mut maven_local_files = match measure_files(
        &snapshot.maven_local,
        FileFilter::EveryFile,
        UseCase::from(UserLevelDiskCache::MavenLocalRepository),
    ) {
        Err(error) => {
            return Err(error);
        },
        Ok(files) => files,
    };
    let mut gradle_projects_files = match measure_projects(&snapshot.projects) {
        Err(error) => {
            return Err(error);
        },
        Ok(files) => files,
    };
    items.append(&mut maven_local_files);
    items.append(&mut gradle_projects_files);
    let ghost counted = items@;
    let evaluation = evaluation_of(items);
    proof {
        assert(counted == disk_measurements(*snapshot));
        lemma_summary_of_nothing(evaluation.resources@, counted);
        if counted.len() == 0 {
            assert(counted == Seq::<AllocatedResource>::empty());
            lemma_evaluation_of_nothing(evaluation);
        }
    }
    Ok(evaluation)
}

/// Evaluates memory: the resident memory of the running JVM processes per
/// kind of process, with the total. No process evaluates to no category
/// and total zero.
pub fn evaluate_ram_memory(processes: &Vec<JvmProcess>) -> (evaluation: EvaluationOutcome)
    ensures
        evaluates(evaluation, memory_measurements(processes@)),
        processes@.len() == 0 ==> evaluation.resources@.len() == 0 && evaluation.total_size == 0,
{
    let resources = find_resources_used_by_jvm(processes);
    let total_memory = calculate_total_allocated(&resources);
    proof {
        lemma_summary_keeps_total(resources@, memory_measurements(processes@));
        if processes@.len() == 0 {
            assert(resources@ == Seq::<AllocatedResource>::empty());
        }
    }
    EvaluationOutcome::new(resources, total_memory)
}

/// The categories that a shallow wipe of the disk removes.
pub open spec fn shallow_disk_caches() -> Seq<DiskCached> {
    seq![
        DiskCached::Shared(UserLevelDiskCache::GradleBuildCaching),
        DiskCached::Shared(UserLevelDiskCache::GradleConfigurationCaching),
        DiskCached::Shared(UserLevelDiskCache::GradleDaemonLogs),
        DiskCached::Shared(UserLevelDiskCache::GradleTemporaryFiles),
        DiskCached::Shared(UserLevelDiskCache::MavenLocalRepository),
    ]
}

/// The categories that a deep wipe of the disk removes: every machine-wide
/// cache that has a directory, and every cache of the projects.
pub open spec fn deep_disk_caches() -> Seq<DiskCached> {
    seq![
        DiskCached::Shared(UserLevelDiskCache::GradleBuildCaching),
        DiskCached::Shared(UserLevelDiskCache::GradleConfigurationCaching),
        DiskCached::Shared(UserLevelDiskCache::GradleDaemonLogs),
        DiskCached::Shared(UserLevelDiskCache::GradleTemporaryFiles),
        DiskCached::Shared(UserLevelDiskCache::MavenLocalRepository),
        DiskCached::Shared(UserLevelDiskCache::KonanCaches),
        DiskCached::Shared(UserLevelDiskCache::GradleJDKToolchains),
        DiskCached::Shared(UserLevelDiskCache::GradleNativeFiles),
        DiskCached::Shared(UserLevelDiskCache::GradleBuildScans),
        DiskCached::Shared(UserLevelDiskCache::GradleDistributions),
        DiskCached::Standalone(ProjectLevelDiskCache::BuildOutput),
        DiskCached::Standalone(ProjectLevelDiskCache::GradleMetadata),
        DiskCached::Standalone(ProjectLevelDiskCache::IdeaMetadata),
    ]
}

/// The kinds of process that a shallow wipe of memory terminates.
pub open spec fn shallow_ram_caches() -> Seq<MemoryCached> {
    seq![MemoryCached::GradleBuildDaemon, MemoryCached::KotlinCompilerDaemon]
}

/// The kinds of process that a deep wipe of memory terminates: all of them.
pub open spec fn deep_ram_caches() -> Seq<MemoryCached> {
    seq![
        MemoryCached::GradleBuildDaemon,
        MemoryCached::KotlinCompilerDaemon,
        MemoryCached::OtherJavaProcess,
    ]
}

/// What a wipe of the disk removes.
pub open spec fn disk_caches_of(action: WipeAction) -> Seq<DiskCached> {
    match action {
        WipeAction::Evaluate => Seq::empty(),
        WipeAction::ShallowWipe => shallow_disk_caches(),
        WipeAction::DeepWipe => deep_disk_caches(),
    }
}

/// What a wipe of memory terminates.
pub open spec fn ram_caches_of(action: WipeAction) -> Seq<MemoryCached> {
    match action {
        WipeAction::Evaluate => Seq::empty(),
        WipeAction::ShallowWipe => shallow_ram_caches(),
        WipeAction::DeepWipe => deep_ram_caches(),
    }
}

pub fn shallow_wipe_disk() -> (caches_to_remove: Vec<DiskCached>)
    ensures
        caches_to_remove@ == shallow_disk_caches(),
{
    let mut caches_to_remove: Vec<DiskCached> = Vec::new();
    caches_to_remove.push(DiskCached::Shared(UserLevelDiskCache::GradleBuildCaching));
    caches_to_remove.push(DiskCached::Shared(UserLevelDiskCache::GradleConfigurationCaching));
    caches_to_remove.push(DiskCached::Shared(UserLevelDiskCache::GradleDaemonLogs));
    caches_to_remove.push(DiskCached::Shared(UserLevelDiskCache::GradleTemporaryFiles));
    caches_to_remove.push(DiskCached::Shared(UserLevelDiskCache::MavenLocalRepository));
    proof {
        assert(caches_to_remove@ =~= shallow_disk_caches());
    }
    caches_to_remove
}

pub fn deep_wipe_disk() -> (caches_to_remove: Vec<DiskCached>)
    ensures
        caches_to_remove@ == deep_disk_caches(),
{
    let mut caches_to_remove: Vec<DiskCached> = Vec::new();
    caches_to_remove.push(DiskCached::Shared(UserLevelDiskCache::GradleBuildCaching));
    caches_to_remove.push(DiskCached::Shared(UserLevelDiskCache::GradleConfigurationCaching));
    caches_to_remove.push(DiskCached::Shared(UserLevelDiskCache::GradleDaemonLogs));
    caches_to_remove.push(DiskCached::Shared(UserLevelDiskCache::GradleTemporaryFiles));
    caches_to_remove.push(DiskCached::Shared(UserLevelDiskCache::MavenLocalRepository));
    caches_to_remove.push(DiskCached::Shared(UserLevelDiskCache::KonanCaches));
    caches_to_remove.push(DiskCached::Shared(UserLevelDiskCache::GradleJDKToolchains));
    caches_to_remove.push(DiskCached::Shared(UserLevelDiskCache::GradleNativeFiles));
    caches_to_remove.push(DiskCached::Shared(UserLevelDiskCache::GradleBuildScans));
    caches_to_remove.push(DiskCached::Shared(UserLevelDiskCache::GradleDistributions));
    caches_to_remove.push(DiskCached::Standalone(ProjectLevelDiskCache::BuildOutput));
    caches_to_remove.push(DiskCached::Standalone(ProjectLevelDiskCache::GradleMetadata));
    caches_to_remove.push(DiskCached::Standalone(ProjectLevelDiskCache::IdeaMetadata));
    proof {
        assert(caches_to_remove@ =~= deep_disk_caches());
    }
    caches_to_remove
}

pub fn shallow_wipe_ram() -> (caches_to_remove: Vec<MemoryCached>)
    ensures
        caches_to_remove@ == shallow_ram_caches(),
{
    let mut caches_to_remove: Vec<MemoryCached> = Vec::new();
    caches_to_remove.push(MemoryCached::GradleBuildDaemon);
    caches_to_remove.push(MemoryCached::KotlinCompilerDaemon);
    proof {
        assert(caches_to_remove@ =~= shallow_ram_caches());
    }
    caches_to_remove
}

pub fn deep_wipe_ram() -> (caches_to_remove: Vec<MemoryCached>)
    ensures
        caches_to_remove@ == deep_ram_caches(),
{
    let mut caches_to_remove: Vec<MemoryCached> = Vec::new();
    caches_to_remove.push(MemoryCached::GradleBuildDaemon);
    caches_to_remove.push(MemoryCached::KotlinCompilerDaemon);
    caches_to_remove.push(MemoryCached::OtherJavaProcess);
    proof {
        assert(caches_to_remove@ =~= deep_ram_caches());
    }
    caches_to_remove
}

/// The directories that stand for `caches`, category after category.
pub open spec fn removal_targets(snapshot: DiskSnapshot, caches: Seq<DiskCached>) -> Seq<
    Seq<char>,
>
    decreases caches.len(),
{
    if caches.len() == 0 {
        Seq::empty()
    } else {
        removal_targets(snapshot, caches.drop_last()) + associated_filepaths(
            snapshot.user_home@,
            caches.last(),
            snapshot.projects@,
        )
    }
}

/// The directories to remove for a wipe of `caches_to_remove`, as the
/// snapshot locates them.
pub fn wipe_disk(snapshot: &DiskSnapshot, caches_to_remove: &Vec<DiskCached>) -> (paths_to_remove:
    Vec<String>)
    ensures
        paths_to_remove.deep_view() == removal_targets(*snapshot, caches_to_remove@),
{
    let mut paths_to_remove: Vec<String> = Vec::new();
    let mut i: usize = 0;
    proof {
        assert(paths_to_remove.deep_view() =~= Seq::<Seq<char>>::empty());
    }
    while i < caches_to_remove.len()
        invariant
            i <= caches_to_remove.len(),
            paths_to_remove.deep_view() == removal_targets(
                *snapshot,
                caches_to_remove@.take(i as int),
            ),
        decreases caches_to_remove.len() - i,
    {
        let ghost before = paths_to_remove.deep_view();
        proof {
            assert(caches_to_remove@.take(i + 1).drop_last() == caches_to_remove@.take(i as int));
        }
        let mut found = find_associated_filepaths(
            snapshot.user_home.as_str(),
            caches_to_remove[i],
            &snapshot.projects,
        );
        let ghost added = found.deep_view();
        paths_to_remove.append(&mut found);
        proof {
            assert(paths_to_remove.deep_view() =~= before + added);
        }
        i += 1;
    }
    proof {
        assert(caches_to_remove@.take(caches_to_remove.len() as int) == caches_to_remove@);
    }
    paths_to_remove
}

/// Why a run ended without an outcome.
#[derive(Debug, Clone, Copy, PartialEq, Eq, Structural)]
pub enum WipeError {
    /// A walk could not be measured.
    Scan(ScanError),
    /// The machine was told of work that it had not asked for.
    UnexpectedObservation,
}

/// How far a run has come.
#[derive(Debug, Clone, Copy, PartialEq, Eq, Structural)]
pub enum Stage {
    /// The first measurement is awaited.
    Measuring,
    /// The removal is awaited; `before` is the total of the first
    /// measurement.
    Wiping { before: u64 },
    /// The second measurement is awaited; `killed` is the number of
    /// processes that the removal terminated.
    Remeasuring { before: u64, killed: u64 },
    /// The run is over.
    Finished,
}

/// One run of an action on a resource.
#[derive(Debug, Clone, Copy, PartialEq, Eq, Structural)]
pub struct Wiper {
    pub target: MachineResource,
    pub action: WipeAction,
    pub stage: Stage,
}

/// The outside work that a run asks for next, or its end.
#[derive(Debug)]
pub enum Request {
    /// Walk the disk and hand back a [`DiskSnapshot`].
    ScanDisk,
    /// List the running JVM processes and hand them back.
    ScanMemory,
    /// Remove each of these directories with all below it, going on after
    /// a failure, and hand back what became of each.
    Remove(Vec<String>),
    /// Signal each of these processes to end, going on after a failure,
    /// and hand back for each whether the signal succeeded.
    Terminate(Vec<u32>),
    /// The run is over with this outcome.
    Finish(ExecutionOutcome),
    /// The run is over without an outcome.
    Abort(WipeError),
}

/// What came of the outside work.
#[derive(Debug)]
pub enum Observation {
    DiskScanned(DiskSnapshot),
    MemoryScanned(Vec<JvmProcess>),
    Removed(Vec<RemovalOutcome>),
    Terminated(Vec<bool>),
}

/// The measurement that a run on `target` asks for.
pub open spec fn asks_to_measure(target: MachineResource, request: Request) -> bool {
    match target {
        MachineResource::DiskSpace => request is ScanDisk,
        MachineResource::RamMemory => request is ScanMemory,
    }
}

/// Begins a run: every run begins with a measurement of its target.
pub fn execute(target: &MachineResource, action: WipeAction) -> (started: (Wiper, Request))
    ensures
        started.0 == (Wiper { target: *target, action, stage: Stage::Measuring }),
        asks_to_measure(*target, started.1),
{
    let wiper = Wiper { target: *target, action, stage: Stage::Measuring };
    match target {
        MachineResource::RamMemory => (wiper, Request::ScanMemory),
        MachineResource::DiskSpace => (wiper, Request::ScanDisk),
    }
}

impl Wiper {
    /// The run ends in `request` because the snapshot could not be
    /// measured.
    pub open spec fn aborts_on(snapshot: DiskSnapshot, next: Wiper, request: Request) -> bool {
        &&& next.stage == Stage::Finished
        &&& request matches Request::Abort(WipeError::Scan(error))
        &&& snapshot_scan_failure(snapshot, error)
    }

    /// The step of the machine: told `observation` in state `self`, the
    /// run goes on in state `next` and asks for `request`.
    ///
    /// An evaluation ends with its first measurement. A wipe asks for the
    /// removal of what its action names, then for a second measurement,
    /// and ends with what was reclaimed: for the disk the first total less
    /// the second, saturating at zero; for memory the number of processes
    /// that were terminated. What became of the removals does not enter
    /// into it. An observation that was not asked for ends the run.
    pub open spec fn advances(self, observation: Observation, next: Wiper, request: Request) -> bool {
        &&& next.target == self.target
        &&& next.action == self.action
        &&& match (self.target, self.stage, observation) {
            (
                MachineResource::DiskSpace,
                Stage::Measuring,
                Observation::DiskScanned(snapshot),
            ) => {
                if !snapshot_measured(snapshot) {
                    Self::aborts_on(snapshot, next, request)
                } else if self.action == WipeAction::Evaluate {
                    &&& next.stage == Stage::Finished
                    &&& request matches Request::Finish(ExecutionOutcome::Evaluation(evaluation))
                    &&& evaluates(evaluation, disk_measurements(snapshot))
                } else {
                    &&& next.stage == (Stage::Wiping {
                        before: clamp(grand_total(disk_measurements(snapshot)) as int),
                    })
                    &&& request matches Request::Remove(paths)
                    &&& paths.deep_view() == removal_targets(snapshot, disk_caches_of(self.action))
                }
            },
            (MachineResource::DiskSpace, Stage::Wiping { before }, Observation::Removed(_)) => {
                &&& next.stage == (Stage::Remeasuring { before, killed: 0 })
                &&& request is ScanDisk
            },
            (
                MachineResource::DiskSpace,
                Stage::Remeasuring { before, killed },
                Observation::DiskScanned(snapshot),
            ) => {
                if !snapshot_measured(snapshot) {
                    Self::aborts_on(snapshot, next, request)
                } else {
                    &&& next.stage == Stage::Finished
                    &&& request matches Request::Finish(ExecutionOutcome::Wiping(wiping))
                    &&& wiping.reclaimed == clamp(
                        before - clamp(grand_total(disk_measurements(snapshot)) as int),
                    )
                }
            },
            (
                MachineResource::RamMemory,
                Stage::Measuring,
                Observation::MemoryScanned(processes),
            ) => {
                if self.action == WipeAction::Evaluate {
                    &&& next.stage == Stage::Finished
                    &&& request matches Request::Finish(ExecutionOutcome::Evaluation(evaluation))
                    &&& evaluates(evaluation, memory_measurements(processes@))
                } else {
                    &&& next.stage == (Stage::Wiping {
                        before: clamp(grand_total(memory_measurements(processes@)) as int),
                    })
                    &&& request matches Request::Terminate(pids)
                    &&& pids@ == termination_targets(processes@, ram_caches_of(self.action))
                }
            },
            (
                MachineResource::RamMemory,
                Stage::Wiping { before },
                Observation::Terminated(signals),
            ) => {
                &&& next.stage == (Stage::Remeasuring { before, killed: killed(signals@) as u64 })
                &&& request is ScanMemory
            },
            (
                MachineResource::RamMemory,
                Stage::Remeasuring { before, killed },
                Observation::MemoryScanned(_),
            ) => {
                &&& next.stage == Stage::Finished
                &&& request matches Request::Finish(ExecutionOutcome::Wiping(wiping))
                &&& wiping.reclaimed == killed
            },
            _ => {
                &&& next.stage == Stage::Finished
                &&& request == Request::Abort(WipeError::UnexpectedObservation)
            },
        }
    }

    fn finished(self) -> (next: Wiper)
        ensures
            next == (Wiper { stage: Stage::Finished, ..self }),
    {
        Wiper { target: self.target, action: self.action, stage: Stage::Finished }
    }

    fn measured_disk(self, snapshot: &DiskSnapshot) -> (step: (Wiper, Request))
        requires
            self.target == MachineResource::DiskSpace,
            self.stage is Measuring || self.stage is Remeasuring,
        ensures
            self.advances(Observation::DiskScanned(*snapshot), step.0, step.1),
    {
        let evaluation = match evaluate_disk_space(snapshot) {
            Err(error) => {
                return (self.finished(), Request::Abort(WipeError::Scan(error)));
            },
            Ok(evaluation) => evaluation,
        };
        match self.stage {
            Stage::Remeasuring { before, killed } => {
                let reclaimed = byte_unit_difference(before, evaluation.total_size);
                let outcome = WipingOutcome::new(reclaimed);
                (self.finished(), Request::Finish(ExecutionOutcome::Wiping(outcome)))
            },
            _ => {
                let caches_to_remove = match self.action {
                    WipeAction::Evaluate => {
                        return (
                            self.finished(),
                            Request::Finish(ExecutionOutcome::Evaluation(evaluation)),
                        );
                    },
                    WipeAction::ShallowWipe => shallow_wipe_disk(),
                    WipeAction::DeepWipe => deep_wipe_disk(),
                };
                let paths_to_remove = wipe_disk(snapshot, &caches_to_remove);
                let next = Wiper {
                    target: self.target,
                    action: self.action,
                    stage: Stage::Wiping { before: evaluation.total_size },
                };
                (next, Request::Remove(paths_to_remove))
            },
        }
    }

    fn measured_memory(self, processes: &Vec<JvmProcess>) -> (step: (Wiper, Request))
        requires
            self.target == MachineResource::RamMemory,
            self.stage is Measuring || self.stage is Remeasuring,
        ensures
            self.advances(Observation::MemoryScanned(*processes), step.0, step.1),
    {
        match self.stage {
            Stage::Remeasuring { before, killed } => {
                let outcome = WipingOutcome::new(killed);
                (self.finished(), Request::Finish(ExecutionOutcome::Wiping(outcome)))
            },
            _ => {
                let evaluation = evaluate_ram_memory(processes);
                let caches_to_remove = match self.action {
                    WipeAction::Evaluate => {
                        return (
                            self.finished(),
                            Request::Finish(ExecutionOutcome::Evaluation(evaluation)),
                        );
                    },
                    WipeAction::ShallowWipe => shallow_wipe_ram(),
                    WipeAction::DeepWipe => deep_wipe_ram(),
                };
                let pids = cleanup_memory(processes, &caches_to_remove);
                let next = Wiper {
                    target: self.target,
                    action: self.action,
                    stage: Stage::Wiping { before: evaluation.total_size },
                };
                (next, Request::Terminate(pids))
            },
        }
    }

    /// Takes the run one step further.
    pub fn advance(self, observation: Observation) -> (step: (Wiper, Request))
        ensures
            self.advances(observation, step.0, step.1),
    {
        match (self.target, self.stage, &observation) {
            (MachineResource::DiskSpace, Stage::Measuring, Observation::DiskScanned(snapshot)) => {
                self.measured_disk(snapshot)
            },
            (
                MachineResource::DiskSpace,
                Stage::Remeasuring { before, killed },
                Observation::DiskScanned(snapshot),
            ) => self.measured_disk(snapshot),
            (MachineResource::DiskSpace, Stage::Wiping { before }, Observation::Removed(_)) => {
                let next = Wiper {
                    target: self.target,
                    action: self.action,
                    stage: Stage::Remeasuring { before, killed: 0 },
                };
                (next, Request::ScanDisk)
            },
            (
                MachineResource::RamMemory,
                Stage::Measuring,
                Observation::MemoryScanned(processes),
            ) => self.measured_memory(processes),
            (
                MachineResource::RamMemory,
                Stage::Remeasuring { before, killed },
                Observation::MemoryScanned(processes),
            ) => self.measured_memory(processes),
            (
                MachineResource::RamMemory,
                Stage::Wiping { before },
                Observation::Terminated(signals),
            ) => {
                let next = Wiper {
                    target: self.target,
                    action: self.action,
                    stage: Stage::Remeasuring { before, killed: count_killed(signals) },
                };
                (next, Request::ScanMemory)
            },
            _ => (self.finished(), Request::Abort(WipeError::UnexpectedObservation)),
        }
    }
}

/// The total that an evaluation of the snapshot reports.
pub open spec fn disk_total(snapshot: DiskSnapshot) -> u64 {
    clamp(grand_total(disk_measurements(snapshot)) as int)
}

/// An evaluation has no side effect: it ends with its first observation,
/// in an outcome or an error, and never asks for a removal or for the end
/// of a process.
pub proof fn lemma_evaluation_only_measures(
    wiper: Wiper,
    observation: Observation,
    next: Wiper,
    request: Request,
)
    requires
        wiper.action == WipeAction::Evaluate,
        wiper.stage == Stage::Measuring,
        wiper.advances(observation, next, request),
    ensures
        next.stage == Stage::Finished,
        request is Finish || request is Abort,
        request matches Request::Finish(outcome) ==> outcome is Evaluation,
{
}

/// A wipe of the disk reclaims the difference of its two evaluations: the
/// total before the removal less the total after it, whatever became of
/// each removal. Byte counts do not go below zero, so the difference is
/// exact whenever the second total does not exceed the first.
pub proof fn lemma_disk_wipe_reclaims_difference(
    wiper: Wiper,
    before: DiskSnapshot,
    removing: Wiper,
    removal: Request,
    removals: Vec<RemovalOutcome>,
    remeasuring: Wiper,
    second_scan: Request,
    after: DiskSnapshot,
    finished: Wiper,
    end: Request,
)
    requires
        wiper.target == MachineResource::DiskSpace,
        wiper.action != WipeAction::Evaluate,
        wiper.stage == Stage::Measuring,
        snapshot_measured(before),
        snapshot_measured(after),
        wiper.advances(Observation::DiskScanned(before), removing, removal),
        removing.advances(Observation::Removed(removals), remeasuring, second_scan),
        remeasuring.advances(Observation::DiskScanned(after), finished, end),
    ensures
        removal matches Request::Remove(paths) && paths.deep_view() == removal_targets(
            before,
            disk_caches_of(wiper.action),
        ),
        second_scan is ScanDisk,
        finished.stage == Stage::Finished,
        end matches Request::Finish(ExecutionOutcome::Wiping(wiping)) && wiping.reclaimed == clamp(
            disk_total(before) - disk_total(after),
        ) && (disk_total(after) <= disk_total(before) ==> wiping.reclaimed == disk_total(before)
            - disk_total(after)),
{
}

/// A wipe of memory reports the number of processes that it terminated:
/// the signals that succeeded.
pub proof fn lemma_ram_wipe_counts_terminated(
    wiper: Wiper,
    before: Vec<JvmProcess>,
    removing: Wiper,
    removal: Request,
    signals: Vec<bool>,
    remeasuring: Wiper,
    second_scan: Request,
    after: Vec<JvmProcess>,
    finished: Wiper,
    end: Request,
)
    requires
        wiper.target == MachineResource::RamMemory,
        wiper.action != WipeAction::Evaluate,
        wiper.stage == Stage::Measuring,
        wiper.advances(Observation::MemoryScanned(before), removing, removal),
        removing.advances(Observation::Terminated(signals), remeasuring, second_scan),
        remeasuring.advances(Observation::MemoryScanned(after), finished, end),
    ensures
        removal matches Request::Terminate(pids) && pids@ == termination_targets(
            before@,
            ram_caches_of(wiper.action),
        ),
        second_scan is ScanMemory,
        finished.stage == Stage::Finished,
        end matches Request::Finish(ExecutionOutcome::Wiping(wiping)) && wiping.reclaimed
            == killed(signals@) as u64,
{
}

} // verus!
