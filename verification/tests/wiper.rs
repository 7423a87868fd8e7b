use gradle_wiper::cli::arguments::{parsed_arguments, Commands, ExecutionMode, WrappedArguments};
use gradle_wiper::cli::feedback::{
    cleanup_outcome, show_execution_outcome, used_resources, Feedback,
};
use gradle_wiper::disk::operations::RemovalOutcome;
use gradle_wiper::disk::{DiskEntry, EntryKind, ProjectListing, ScanError};
use gradle_wiper::models::{
    AllocatedResource, EvaluationOutcome, ExecutionOutcome, MachineResource, MemoryCached,
    ProjectLevelDiskCache, UseCase, UserLevelDiskCache, WipeAction, WipingOutcome,
};
use gradle_wiper::ram::JvmProcess;
use gradle_wiper::wiper::{
    deep_wipe_disk, deep_wipe_ram, evaluate_disk_space, evaluate_ram_memory, execute,
    shallow_wipe_disk, shallow_wipe_ram, wipe_disk, DiskSnapshot, Observation, Request, Stage,
    WipeError, Wiper,
};
use ubyte::ToByteUnit;

const HOME: &str = "/home/user";

fn file_of(path: &str, size: u64) -> DiskEntry {
    DiskEntry { path: format!("{}/{}", HOME, path), kind: EntryKind::File, size: Some(size) }
}

fn directory(path: &str) -> DiskEntry {
    DiskEntry { path: format!("{}/{}", HOME, path), kind: EntryKind::Directory, size: Some(4096) }
}

fn empty_disk() -> DiskSnapshot {
    DiskSnapshot {
        user_home: String::from(HOME),
        gradle_home: Vec::new(),
        maven_local: Vec::new(),
        projects: Vec::new(),
    }
}

fn gradle_home_of_three_categories() -> Vec<DiskEntry> {
    vec![
        directory(".gradle"),
        directory(".gradle/daemon"),
        directory(".gradle/daemon/8.7"),
        file_of(".gradle/daemon/8.7/daemon-1.out.log", 1000),
        file_of(".gradle/daemon/8.7/daemon-2.out.log", 1000),
        directory(".gradle/caches"),
        directory(".gradle/caches/build-cache-1"),
        file_of(".gradle/caches/build-cache-1/a", 1000),
        file_of(".gradle/caches/build-cache-1/b", 1000),
        file_of(".gradle/caches/build-cache-1/c", 1000),
        directory(".gradle/configuration-cache"),
        file_of(".gradle/configuration-cache/entry", 1000),
    ]
}

fn populated_disk() -> DiskSnapshot {
    DiskSnapshot {
        user_home: String::from(HOME),
        gradle_home: vec![
            directory(".gradle"),
            file_of(".gradle/caches/modules-2/x.jar", 4000),
            file_of(".gradle/configuration-cache/y", 300),
            file_of(".gradle/daemon/8.7/daemon.log", 20),
            file_of(".gradle/.tmp/z", 1),
            file_of(".gradle/jdks/temurin-21/release", 50000),
            file_of(".gradle/gradle.properties", 64),
        ],
        maven_local: vec![directory(".m2"), file_of(".m2/repository/lib.jar", 700)],
        projects: vec![ProjectListing {
            root: format!("{}/IdeaProjects/app", HOME),
            entries: vec![
                directory("IdeaProjects/app"),
                directory("IdeaProjects/app/build"),
                file_of("IdeaProjects/app/build/libs/app.jar", 900),
                file_of("IdeaProjects/app/src/Main.kt", 30),
                directory("IdeaProjects/app/lib/build"),
            ],
        }],
    }
}

fn disk_after_shallow_wipe_with_one_failure() -> DiskSnapshot {
    // The build cache could not be removed; the other four targets are gone.
    DiskSnapshot {
        user_home: String::from(HOME),
        gradle_home: vec![
            directory(".gradle"),
            file_of(".gradle/caches/modules-2/x.jar", 4000),
            file_of(".gradle/jdks/temurin-21/release", 50000),
            file_of(".gradle/gradle.properties", 64),
        ],
        maven_local: Vec::new(),
        projects: populated_disk().projects,
    }
}

fn process(pid: u32, launcher_class: &str, resident_memory: Option<u64>) -> JvmProcess {
    JvmProcess { pid, launcher_class: launcher_class.to_string(), resident_memory }
}

fn running() -> Vec<JvmProcess> {
    vec![
        process(10, "org.gradle.launcher.daemon.bootstrap.GradleDaemon", Some(2048)),
        process(11, "com.intellij.idea.Main", Some(4096)),
        process(12, "org.jetbrains.kotlin.daemon.KotlinCompileDaemon", Some(1024)),
        process(13, "org.gradle.launcher.daemon.bootstrap.GradleDaemon", Some(512)),
    ]
}

fn evaluation_in(request: Request) -> EvaluationOutcome {
    match request {
        Request::Finish(ExecutionOutcome::Evaluation(evaluation)) => evaluation,
        other => panic!("not an evaluation: {:?}", other),
    }
}

fn reclaimed_in(request: Request) -> u64 {
    match request {
        Request::Finish(ExecutionOutcome::Wiping(wiping)) => wiping.reclaimed,
        other => panic!("not a wiping: {:?}", other),
    }
}

fn paths_in(request: Request) -> Vec<String> {
    match request {
        Request::Remove(paths) => paths,
        other => panic!("not a removal: {:?}", other),
    }
}

fn pids_in(request: Request) -> Vec<u32> {
    match request {
        Request::Terminate(pids) => pids,
        other => panic!("not a termination: {:?}", other),
    }
}

#[test]
fn evaluates_three_categories_of_the_gradle_home() {
    let mut snapshot = empty_disk();
    snapshot.gradle_home = gradle_home_of_three_categories();

    let evaluation = evaluate_disk_space(&snapshot).expect("Cannot evaluate");

    let expected = vec![
        AllocatedResource::new(
            UseCase::from(UserLevelDiskCache::GradleConfigurationCaching),
            1.kilobytes().as_u64(),
        ),
        AllocatedResource::new(
            UseCase::from(UserLevelDiskCache::GradleBuildCaching),
            3.kilobytes().as_u64(),
        ),
        AllocatedResource::new(
            UseCase::from(UserLevelDiskCache::GradleDaemonLogs),
            2.kilobytes().as_u64(),
        ),
    ];
    assert_eq!(evaluation.resources, expected);
    assert_eq!(evaluation.total_size, 6.kilobytes().as_u64());
    assert_eq!(evaluation.total_size, 6000);
}

#[test]
fn evaluates_the_union_of_the_three_scans() {
    let evaluation = evaluate_disk_space(&populated_disk()).expect("Cannot evaluate");
    let expected = vec![
        AllocatedResource::new(UseCase::from(UserLevelDiskCache::GradleConfigurationCaching), 300),
        AllocatedResource::new(UseCase::from(UserLevelDiskCache::GradleBuildCaching), 4000),
        AllocatedResource::new(UseCase::from(UserLevelDiskCache::GradleDaemonLogs), 20),
        AllocatedResource::new(UseCase::from(UserLevelDiskCache::GradleJDKToolchains), 50000),
        AllocatedResource::new(UseCase::from(UserLevelDiskCache::GradleTemporaryFiles), 1),
        AllocatedResource::new(UseCase::from(UserLevelDiskCache::MavenLocalRepository), 700),
        AllocatedResource::new(UseCase::from(ProjectLevelDiskCache::BuildOutput), 900),
    ];
    assert_eq!(evaluation.resources, expected);
    assert_eq!(evaluation.total_size, 55921);
    let per_category: u64 = evaluation.resources.iter().map(|resource| resource.amount).sum();
    assert_eq!(per_category, evaluation.total_size);
}

#[test]
fn evaluating_absent_roots_yields_nothing() {
    for _ in 0..2 {
        let evaluation = evaluate_disk_space(&empty_disk()).expect("Cannot evaluate");
        assert!(evaluation.resources.is_empty());
        assert_eq!(evaluation.total_size, 0);
    }
    let evaluation = evaluate_ram_memory(&Vec::new());
    assert!(evaluation.resources.is_empty());
    assert_eq!(evaluation.total_size, 0);
}

#[test]
fn an_evaluation_fails_on_an_entry_without_metadata() {
    let mut snapshot = populated_disk();
    snapshot.maven_local.push(DiskEntry {
        path: format!("{}/.m2/gone", HOME),
        kind: EntryKind::File,
        size: None,
    });
    assert_eq!(
        evaluate_disk_space(&snapshot).err(),
        Some(ScanError::MetadataUnavailable { entry: 2 })
    );
    snapshot.gradle_home.insert(
        1,
        DiskEntry { path: format!("{}/.gradle/gone", HOME), kind: EntryKind::Other, size: None },
    );
    assert_eq!(
        evaluate_disk_space(&snapshot).err(),
        Some(ScanError::MetadataUnavailable { entry: 1 })
    );

    let (wiper, _) = execute(&MachineResource::DiskSpace, WipeAction::DeepWipe);
    let (wiper, request) = wiper.advance(Observation::DiskScanned(snapshot));
    assert_eq!(wiper.stage, Stage::Finished);
    assert!(matches!(
        request,
        Request::Abort(WipeError::Scan(ScanError::MetadataUnavailable { entry: 1 }))
    ));
}

#[test]
fn evaluates_memory_per_kind_of_process() {
    let evaluation = evaluate_ram_memory(&running());
    let expected = vec![
        AllocatedResource::new(UseCase::from(MemoryCached::GradleBuildDaemon), 2560),
        AllocatedResource::new(UseCase::from(MemoryCached::KotlinCompilerDaemon), 1024),
        AllocatedResource::new(UseCase::from(MemoryCached::OtherJavaProcess), 4096),
    ];
    assert_eq!(evaluation.resources, expected);
    assert_eq!(evaluation.total_size, 7680);
}

#[test]
fn an_evaluation_of_the_disk_measures_once_and_ends() {
    let (wiper, request) = execute(&MachineResource::DiskSpace, WipeAction::Evaluate);
    assert_eq!(
        wiper,
        Wiper {
            target: MachineResource::DiskSpace,
            action: WipeAction::Evaluate,
            stage: Stage::Measuring
        }
    );
    assert!(matches!(request, Request::ScanDisk));

    let (wiper, request) = wiper.advance(Observation::DiskScanned(populated_disk()));
    assert_eq!(wiper.stage, Stage::Finished);
    let evaluation = evaluation_in(request);
    assert_eq!(evaluation.resources.len(), 7);
    assert_eq!(evaluation.total_size, 55921);
}

#[test]
fn an_evaluation_of_memory_measures_once_and_ends() {
    let (wiper, request) = execute(&MachineResource::RamMemory, WipeAction::Evaluate);
    assert!(matches!(request, Request::ScanMemory));
    let (wiper, request) = wiper.advance(Observation::MemoryScanned(running()));
    assert_eq!(wiper.stage, Stage::Finished);
    assert_eq!(evaluation_in(request).total_size, 7680);
}

#[test]
fn a_shallow_wipe_reports_what_was_freed_when_a_removal_fails() {
    let (wiper, request) = execute(&MachineResource::DiskSpace, WipeAction::ShallowWipe);
    assert!(matches!(request, Request::ScanDisk));

    let (wiper, request) = wiper.advance(Observation::DiskScanned(populated_disk()));
    assert_eq!(wiper.stage, Stage::Wiping { before: 55921 });
    let expected: Vec<String> = [
        ".gradle/caches",
        ".gradle/configuration-cache",
        ".gradle/daemon",
        ".gradle/.tmp",
        ".m2",
    ]
    .iter()
    .map(|path| format!("{}/{}", HOME, path))
    .collect();
    assert_eq!(paths_in(request), expected);

    let removals = vec![
        RemovalOutcome::Failed,
        RemovalOutcome::Removed,
        RemovalOutcome::Removed,
        RemovalOutcome::Removed,
        RemovalOutcome::Removed,
    ];
    let (wiper, request) = wiper.advance(Observation::Removed(removals));
    assert_eq!(wiper.stage, Stage::Remeasuring { before: 55921, killed: 0 });
    assert!(matches!(request, Request::ScanDisk));

    let (wiper, request) =
        wiper.advance(Observation::DiskScanned(disk_after_shallow_wipe_with_one_failure()));
    assert_eq!(wiper.stage, Stage::Finished);
    // 300 + 20 + 1 + 700 bytes were freed; the 4000 bytes of the build cache were not.
    assert_eq!(reclaimed_in(request), 1021);
}

#[test]
fn a_deep_wipe_removes_every_category() {
    let (wiper, _) = execute(&MachineResource::DiskSpace, WipeAction::DeepWipe);
    let (wiper, request) = wiper.advance(Observation::DiskScanned(populated_disk()));
    let expected: Vec<String> = [
        ".gradle/caches",
        ".gradle/configuration-cache",
        ".gradle/daemon",
        ".gradle/.tmp",
        ".m2",
        ".konan",
        ".gradle/jdks",
        ".gradle/native",
        ".gradle/build-scan-data",
        ".gradle/wrapper",
        "IdeaProjects/app/build",
        "IdeaProjects/app/lib/build",
        "IdeaProjects/app/.gradle",
        "IdeaProjects/app/.idea",
    ]
    .iter()
    .map(|path| format!("{}/{}", HOME, path))
    .collect();
    assert_eq!(paths_in(request), expected);

    let (wiper, _) = wiper.advance(Observation::Removed(vec![RemovalOutcome::Removed; 14]));
    let (wiper, request) = wiper.advance(Observation::DiskScanned(empty_disk()));
    assert_eq!(wiper.stage, Stage::Finished);
    assert_eq!(reclaimed_in(request), 55921);
}

#[test]
fn a_wipe_that_frees_nothing_reclaims_nothing() {
    let (wiper, _) = execute(&MachineResource::DiskSpace, WipeAction::ShallowWipe);
    let (wiper, _) = wiper.advance(Observation::DiskScanned(populated_disk()));
    let (wiper, _) = wiper.advance(Observation::Removed(vec![RemovalOutcome::Failed; 5]));
    let (_, request) = wiper.advance(Observation::DiskScanned(populated_disk()));
    assert_eq!(reclaimed_in(request), 0);
}

#[test]
fn reclaimed_bytes_do_not_go_below_zero() {
    let (wiper, _) = execute(&MachineResource::DiskSpace, WipeAction::ShallowWipe);
    let (wiper, _) = wiper.advance(Observation::DiskScanned(empty_disk()));
    let (wiper, _) = wiper.advance(Observation::Removed(vec![RemovalOutcome::AlreadyAbsent; 5]));
    let (_, request) = wiper.advance(Observation::DiskScanned(populated_disk()));
    assert_eq!(reclaimed_in(request), 0);
}

#[test]
fn a_shallow_wipe_of_memory_terminates_the_daemons() {
    let (wiper, request) = execute(&MachineResource::RamMemory, WipeAction::ShallowWipe);
    assert!(matches!(request, Request::ScanMemory));

    let (wiper, request) = wiper.advance(Observation::MemoryScanned(running()));
    assert_eq!(wiper.stage, Stage::Wiping { before: 7680 });
    assert_eq!(pids_in(request), vec![10, 12, 13]);

    let (wiper, request) = wiper.advance(Observation::Terminated(vec![true, false, true]));
    assert_eq!(wiper.stage, Stage::Remeasuring { before: 7680, killed: 2 });
    assert!(matches!(request, Request::ScanMemory));

    let (wiper, request) = wiper.advance(Observation::MemoryScanned(Vec::new()));
    assert_eq!(wiper.stage, Stage::Finished);
    assert_eq!(reclaimed_in(request), 2);
}

#[test]
fn a_deep_wipe_of_memory_terminates_every_process() {
    let (wiper, _) = execute(&MachineResource::RamMemory, WipeAction::DeepWipe);
    let (wiper, request) = wiper.advance(Observation::MemoryScanned(running()));
    assert_eq!(pids_in(request), vec![10, 11, 12, 13]);
    let (wiper, _) = wiper.advance(Observation::Terminated(vec![true; 4]));
    let (_, request) = wiper.advance(Observation::MemoryScanned(Vec::new()));
    assert_eq!(reclaimed_in(request), 4);
}

#[test]
fn an_observation_that_was_not_asked_for_ends_the_run() {
    let (wiper, _) = execute(&MachineResource::DiskSpace, WipeAction::ShallowWipe);
    let (wiper, request) = wiper.advance(Observation::MemoryScanned(running()));
    assert_eq!(wiper.stage, Stage::Finished);
    assert!(matches!(request, Request::Abort(WipeError::UnexpectedObservation)));

    let (wiper, request) = wiper.advance(Observation::DiskScanned(empty_disk()));
    assert_eq!(wiper.stage, Stage::Finished);
    assert!(matches!(request, Request::Abort(WipeError::UnexpectedObservation)));

    let (wiper, _) = execute(&MachineResource::RamMemory, WipeAction::DeepWipe);
    let (_, request) = wiper.advance(Observation::Terminated(vec![true]));
    assert!(matches!(request, Request::Abort(WipeError::UnexpectedObservation)));

    let (wiper, _) = execute(&MachineResource::DiskSpace, WipeAction::DeepWipe);
    let (wiper, _) = wiper.advance(Observation::DiskScanned(empty_disk()));
    let (_, request) = wiper.advance(Observation::Terminated(vec![true]));
    assert!(matches!(request, Request::Abort(WipeError::UnexpectedObservation)));
}

#[test]
fn names_the_categories_of_each_wipe() {
    assert_eq!(shallow_wipe_disk().len(), 5);
    assert_eq!(deep_wipe_disk().len(), 13);
    assert_eq!(
        shallow_wipe_ram(),
        vec![MemoryCached::GradleBuildDaemon, MemoryCached::KotlinCompilerDaemon]
    );
    assert_eq!(deep_wipe_ram().len(), 3);
    assert!(wipe_disk(&populated_disk(), &Vec::new()).is_empty());
    assert_eq!(wipe_disk(&populated_disk(), &shallow_wipe_disk()).len(), 5);
}

#[test]
fn should_evaluate_no_usages_of_ram_memory() {
    let (wiper, _) = execute(&MachineResource::RamMemory, WipeAction::Evaluate);
    let (_, request) = wiper.advance(Observation::MemoryScanned(Vec::new()));
    let outcome = ExecutionOutcome::Evaluation(evaluation_in(request));

    let feedback = show_execution_outcome(&MachineResource::RamMemory, &outcome);

    match feedback {
        Feedback::NothingFound { resource } => assert_eq!(resource, "RAM memory"),
        other => panic!("unexpected feedback: {:?}", other),
    }
}

#[test]
fn shows_a_row_per_category_and_the_total() {
    let evaluation = evaluate_disk_space(&populated_disk()).expect("Cannot evaluate");
    match used_resources(&MachineResource::DiskSpace, &evaluation) {
        Feedback::Usages { resource, rows, total_size } => {
            assert_eq!(resource, "disk space");
            assert_eq!(total_size, 55921);
            let shown: Vec<(String, u64)> =
                rows.into_iter().map(|row| (row.what, row.total_size)).collect();
            let expected = vec![
                (String::from("Gradle Configuration Caches"), 300),
                (String::from("Gradle Build Caches"), 4000),
                (String::from("Gradle Daemon Logs"), 20),
                (String::from("Gradle JDK toolchains"), 50000),
                (String::from("Gradle Temporary Files"), 1),
                (String::from("Maven local repository"), 700),
                (String::from("Build output files"), 900),
            ];
            assert_eq!(shown, expected);
        },
        other => panic!("unexpected feedback: {:?}", other),
    }
}

#[test]
fn shows_what_a_wipe_reclaimed() {
    let outcome = ExecutionOutcome::Wiping(WipingOutcome::new(1021));
    match show_execution_outcome(&MachineResource::DiskSpace, &outcome) {
        Feedback::Reclaimed { resource, reclaimed } => {
            assert_eq!(resource, "disk space");
            assert_eq!(reclaimed, 1021);
        },
        other => panic!("unexpected feedback: {:?}", other),
    }
    match cleanup_outcome(&MachineResource::RamMemory, &WipingOutcome::new(2)) {
        Feedback::Reclaimed { resource, reclaimed } => {
            assert_eq!(resource, "RAM memory");
            assert_eq!(reclaimed, 2);
        },
        other => panic!("unexpected feedback: {:?}", other),
    }
}

#[test]
fn arguments_name_the_target_and_the_action() {
    let modes = [
        (ExecutionMode::Evaluate, WipeAction::Evaluate),
        (ExecutionMode::Shallow, WipeAction::ShallowWipe),
        (ExecutionMode::Deep, WipeAction::DeepWipe),
    ];
    for (mode, action) in modes {
        for verbose in [false, true] {
            let args = WrappedArguments { mode, verbose };
            assert_eq!(WipeAction::from(&args), action);
            assert_eq!(
                parsed_arguments(&Commands::Disk(args)),
                (MachineResource::DiskSpace, action, verbose)
            );
            assert_eq!(
                parsed_arguments(&Commands::Ram(args)),
                (MachineResource::RamMemory, action, verbose)
            );
        }
    }
}
