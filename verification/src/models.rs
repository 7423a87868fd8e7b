//! The closed taxonomy of machine resources and the records that measure them.

use vstd::prelude::*;

verus! {

/// The kind of machine resource an operation targets.
#[derive(Debug, Clone, Copy, PartialEq, Eq, Structural)]
pub enum MachineResource {
    RamMemory,
    DiskSpace,
}

/// How far an operation may go: measuring only, or removing a conservative or
/// the complete set of categories.
#[derive(Debug, Clone, Copy, PartialEq, Eq, Structural)]
pub enum WipeAction {
    Evaluate,
    ShallowWipe,
    DeepWipe,
}

/// What a resident JVM process is, judged by its launch command.
#[derive(Debug, PartialEq, Eq, Hash, Copy, Clone, PartialOrd, Ord, Structural)]
pub enum MemoryCached {
    GradleBuildDaemon,
    KotlinCompilerDaemon,
    OtherJavaProcess,
}

/// Machine-wide caches, each but the residual one rooted at a fixed path
/// below the user's home directory.
#[derive(Debug, PartialEq, Eq, Hash, Copy, Clone, PartialOrd, Ord, Structural)]
pub enum UserLevelDiskCache {
    GradleConfigurationCaching,
    GradleBuildCaching,
    GradleDaemonLogs,
    GradleJDKToolchains,
    GradleDistributions,
    GradleTemporaryFiles,
    GradleNativeFiles,
    GradleBuildScans,
    GradleOtherCaches,
    MavenLocalRepository,
    KonanCaches,
}

/// Caches that live inside one Gradle project.
#[derive(Debug, PartialEq, Eq, Hash, Copy, Clone, PartialOrd, Ord, Structural)]
pub enum ProjectLevelDiskCache {
    BuildOutput,
    GradleMetadata,
    IdeaMetadata,
}

/// Disk usage, machine-wide or per project.
#[derive(Debug, PartialEq, Eq, Hash, Copy, Clone, PartialOrd, Ord, Structural)]
pub enum DiskCached {
    Shared(UserLevelDiskCache),
    Standalone(ProjectLevelDiskCache),
}

/// The key under which measurements are grouped.
#[derive(Debug, PartialEq, Eq, Hash, Copy, Clone, PartialOrd, Ord, Structural)]
pub enum UseCase {
    Disk(DiskCached),
    Memory(MemoryCached),
}

impl MachineResource {
    /// The words that name this resource in messages.
    pub open spec fn spec_label(self) -> Seq<char> {
        match self {
            MachineResource::RamMemory => "RAM memory"@,
            MachineResource::DiskSpace => "disk space"@,
        }
    }

    pub fn label(&self) -> (name: String)
        ensures
            name@ == self.spec_label(),
    {
        match self {
            MachineResource::RamMemory => "RAM memory".to_owned(),
            MachineResource::DiskSpace => "disk space".to_owned(),
        }
    }
}

impl WipeAction {
    /// The words that name this action in messages.
    pub open spec fn spec_label(self) -> Seq<char> {
        match self {
            WipeAction::Evaluate => "evaluation"@,
            WipeAction::ShallowWipe => "shallow wiping"@,
            WipeAction::DeepWipe => "deep wiping"@,
        }
    }

    pub fn label(&self) -> (name: String)
        ensures
            name@ == self.spec_label(),
    {
        match self {
            WipeAction::Evaluate => "evaluation".to_owned(),
            WipeAction::ShallowWipe => "shallow wiping".to_owned(),
            WipeAction::DeepWipe => "deep wiping".to_owned(),
        }
    }
}

impl MemoryCached {
    /// Position of the variant in declaration order.
    pub open spec fn spec_rank(self) -> u8 {
        match self {
            MemoryCached::GradleBuildDaemon => 0,
            MemoryCached::KotlinCompilerDaemon => 1,
            MemoryCached::OtherJavaProcess => 2,
        }
    }

    #[verifier::when_used_as_spec(spec_rank)]
    pub fn rank(self) -> (r: u8)
        ensures
            r == self.spec_rank(),
    {
        match self {
            MemoryCached::GradleBuildDaemon => 0,
            MemoryCached::KotlinCompilerDaemon => 1,
            MemoryCached::OtherJavaProcess => 2,
        }
    }

    pub open spec fn spec_label(self) -> Seq<char> {
        match self {
            MemoryCached::GradleBuildDaemon => "Gradle Daemon"@,
            MemoryCached::KotlinCompilerDaemon => "Kotlin Daemon"@,
            MemoryCached::OtherJavaProcess => "Other JVM process"@,
        }
    }

    pub fn label(&self) -> (name: String)
        ensures
            name@ == self.spec_label(),
    {
        match self {
            MemoryCached::GradleBuildDaemon => "Gradle Daemon".to_owned(),
            MemoryCached::KotlinCompilerDaemon => "Kotlin Daemon".to_owned(),
            MemoryCached::OtherJavaProcess => "Other JVM process".to_owned(),
        }
    }
}

impl UserLevelDiskCache {
    /// Position of the variant in declaration order.
    pub open spec fn spec_rank(self) -> u8 {
        match self {
            UserLevelDiskCache::GradleConfigurationCaching => 0,
            UserLevelDiskCache::GradleBuildCaching => 1,
            UserLevelDiskCache::GradleDaemonLogs => 2,
            UserLevelDiskCache::GradleJDKToolchains => 3,
            UserLevelDiskCache::GradleDistributions => 4,
            UserLevelDiskCache::GradleTemporaryFiles => 5,
            UserLevelDiskCache::GradleNativeFiles => 6,
            UserLevelDiskCache::GradleBuildScans => 7,
            UserLevelDiskCache::GradleOtherCaches => 8,
            UserLevelDiskCache::MavenLocalRepository => 9,
            UserLevelDiskCache::KonanCaches => 10,
        }
    }

    #[verifier::when_used_as_spec(spec_rank)]
    pub fn rank(self) -> (r: u8)
        ensures
            r == self.spec_rank(),
    {
        match self {
            UserLevelDiskCache::GradleConfigurationCaching => 0,
            UserLevelDiskCache::GradleBuildCaching => 1,
            UserLevelDiskCache::GradleDaemonLogs => 2,
            UserLevelDiskCache::GradleJDKToolchains => 3,
            UserLevelDiskCache::GradleDistributions => 4,
            UserLevelDiskCache::GradleTemporaryFiles => 5,
            UserLevelDiskCache::GradleNativeFiles => 6,
            UserLevelDiskCache::GradleBuildScans => 7,
            UserLevelDiskCache::GradleOtherCaches => 8,
            UserLevelDiskCache::MavenLocalRepository => 9,
            UserLevelDiskCache::KonanCaches => 10,
        }
    }

    pub open spec fn spec_label(self) -> Seq<char> {
        match self {
            UserLevelDiskCache::GradleConfigurationCaching => "Gradle Configuration Caches"@,
            UserLevelDiskCache::GradleBuildCaching => "Gradle Build Caches"@,
            UserLevelDiskCache::GradleDaemonLogs => "Gradle Daemon Logs"@,
            UserLevelDiskCache::GradleJDKToolchains => "Gradle JDK toolchains"@,
            UserLevelDiskCache::GradleDistributions => "Gradle Distributions"@,
            UserLevelDiskCache::GradleTemporaryFiles => "Gradle Temporary Files"@,
            UserLevelDiskCache::GradleNativeFiles => "Gradle platform-native caches"@,
            UserLevelDiskCache::GradleBuildScans => "Gradle build-scans data"@,
            UserLevelDiskCache::GradleOtherCaches => "Other files on Gradle Home"@,
            UserLevelDiskCache::MavenLocalRepository => "Maven local repository"@,
            UserLevelDiskCache::KonanCaches => "Konan/KMP Caches"@,
        }
    }

    pub fn label(&self) -> (name: String)
        ensures
            name@ == self.spec_label(),
    {
        match self {
            UserLevelDiskCache::GradleConfigurationCaching => {
                "Gradle Configuration Caches".to_owned()
            },
            UserLevelDiskCache::GradleBuildCaching => "Gradle Build Caches".to_owned(),
            UserLevelDiskCache::GradleDaemonLogs => "Gradle Daemon Logs".to_owned(),
            UserLevelDiskCache::GradleJDKToolchains => "Gradle JDK toolchains".to_owned(),
            UserLevelDiskCache::GradleDistributions => "Gradle Distributions".to_owned(),
            UserLevelDiskCache::GradleTemporaryFiles => "Gradle Temporary Files".to_owned(),
            UserLevelDiskCache::GradleNativeFiles => "Gradle platform-native caches".to_owned(),
            UserLevelDiskCache::GradleBuildScans => "Gradle build-scans data".to_owned(),
            UserLevelDiskCache::GradleOtherCaches => "Other files on Gradle Home".to_owned(),
            UserLevelDiskCache::MavenLocalRepository => "Maven local repository".to_owned(),
            UserLevelDiskCache::KonanCaches => "Konan/KMP Caches".to_owned(),
        }
    }

    /// The directory of this cache, relative to the user's home directory.
    /// The residual category has none.
    pub open spec fn spec_path_relative_to_user_home(self) -> Option<Seq<char>> {
        match self {
            UserLevelDiskCache::GradleConfigurationCaching => Some(".gradle/configuration-cache"@),
            UserLevelDiskCache::GradleBuildCaching => Some(".gradle/caches"@),
            UserLevelDiskCache::GradleDaemonLogs => Some(".gradle/daemon"@),
            UserLevelDiskCache::GradleJDKToolchains => Some(".gradle/jdks"@),
            UserLevelDiskCache::GradleDistributions => Some(".gradle/wrapper"@),
            UserLevelDiskCache::GradleTemporaryFiles => Some(".gradle/.tmp"@),
            UserLevelDiskCache::GradleNativeFiles => Some(".gradle/native"@),
            UserLevelDiskCache::GradleBuildScans => Some(".gradle/build-scan-data"@),
            UserLevelDiskCache::MavenLocalRepository => Some(".m2"@),
            UserLevelDiskCache::KonanCaches => Some(".konan"@),
            UserLevelDiskCache::GradleOtherCaches => None,
        }
    }

    pub fn path_relative_to_user_home(&self) -> (path: Option<String>)
        ensures
            path is Some <==> *self != UserLevelDiskCache::GradleOtherCaches,
            match path {
                Some(p) => self.spec_path_relative_to_user_home() == Some(p@),
                None => self.spec_path_relative_to_user_home() is None,
            },
    {
        match self {
            UserLevelDiskCache::GradleConfigurationCaching => {
                Some(".gradle/configuration-cache".to_owned())
            },
            UserLevelDiskCache::GradleBuildCaching => Some(".gradle/caches".to_owned()),
            UserLevelDiskCache::GradleDaemonLogs => Some(".gradle/daemon".to_owned()),
            UserLevelDiskCache::GradleJDKToolchains => Some(".gradle/jdks".to_owned()),
            UserLevelDiskCache::GradleDistributions => Some(".gradle/wrapper".to_owned()),
            UserLevelDiskCache::GradleTemporaryFiles => Some(".gradle/.tmp".to_owned()),
            UserLevelDiskCache::GradleNativeFiles => Some(".gradle/native".to_owned()),
            UserLevelDiskCache::GradleBuildScans => Some(".gradle/build-scan-data".to_owned()),
            UserLevelDiskCache::MavenLocalRepository => Some(".m2".to_owned()),
            UserLevelDiskCache::KonanCaches => Some(".konan".to_owned()),
            UserLevelDiskCache::GradleOtherCaches => None,
        }
    }
}

impl ProjectLevelDiskCache {
    /// Position of the variant in declaration order.
    pub open spec fn spec_rank(self) -> u8 {
        match self {
            ProjectLevelDiskCache::BuildOutput => 0,
            ProjectLevelDiskCache::GradleMetadata => 1,
            ProjectLevelDiskCache::IdeaMetadata => 2,
        }
    }

    #[verifier::when_used_as_spec(spec_rank)]
    pub fn rank(self) -> (r: u8)
        ensures
            r == self.spec_rank(),
    {
        match self {
            ProjectLevelDiskCache::BuildOutput => 0,
            ProjectLevelDiskCache::GradleMetadata => 1,
            ProjectLevelDiskCache::IdeaMetadata => 2,
        }
    }

    pub open spec fn spec_label(self) -> Seq<char> {
        match self {
            ProjectLevelDiskCache::BuildOutput => "Build output files"@,
            ProjectLevelDiskCache::GradleMetadata => "Gradle metadata"@,
            ProjectLevelDiskCache::IdeaMetadata => "Idea metadata"@,
        }
    }

    pub fn label(&self) -> (name: String)
        ensures
            name@ == self.spec_label(),
    {
        match self {
            ProjectLevelDiskCache::BuildOutput => "Build output files".to_owned(),
            ProjectLevelDiskCache::GradleMetadata => "Gradle metadata".to_owned(),
            ProjectLevelDiskCache::IdeaMetadata => "Idea metadata".to_owned(),
        }
    }
}

impl DiskCached {
    /// Machine-wide caches come before project caches; inside each group the
    /// declaration order decides.
    pub open spec fn spec_rank(self) -> u8 {
        match self {
            DiskCached::Shared(user_level) => user_level.spec_rank(),
            DiskCached::Standalone(project_level) => (11 + project_level.spec_rank()) as u8,
        }
    }

    #[verifier::when_used_as_spec(spec_rank)]
    pub fn rank(self) -> (r: u8)
        ensures
            r == self.spec_rank(),
    {
        match self {
            DiskCached::Shared(user_level) => user_level.rank(),
            DiskCached::Standalone(project_level) => 11 + project_level.rank(),
        }
    }

    pub open spec fn spec_label(self) -> Seq<char> {
        match self {
            DiskCached::Shared(user_level) => user_level.spec_label(),
            DiskCached::Standalone(project_level) => project_level.spec_label(),
        }
    }

    pub fn label(&self) -> (name: String)
        ensures
            name@ == self.spec_label(),
    {
        match self {
            DiskCached::Shared(user_level) => user_level.label(),
            DiskCached::Standalone(project_level) => project_level.label(),
        }
    }
}

/// How many use cases there are; every rank lies below it.
pub const USE_CASE_COUNT: u8 = 17;

impl UseCase {
    /// The total order of use cases as a number: disk before memory, and
    /// inside each the order of [`DiskCached`] and [`MemoryCached`].
    pub open spec fn spec_rank(self) -> u8 {
        match self {
            UseCase::Disk(disk) => disk.spec_rank(),
            UseCase::Memory(memory) => (14 + memory.spec_rank()) as u8,
        }
    }

    #[verifier::when_used_as_spec(spec_rank)]
    pub fn rank(self) -> (r: u8)
        ensures
            r == self.spec_rank(),
            r < USE_CASE_COUNT,
    {
        match self {
            UseCase::Disk(disk) => disk.rank(),
            UseCase::Memory(memory) => 14 + memory.rank(),
        }
    }

    pub open spec fn spec_label(self) -> Seq<char> {
        match self {
            UseCase::Disk(disk) => disk.spec_label(),
            UseCase::Memory(memory) => memory.spec_label(),
        }
    }

    pub fn label(&self) -> (name: String)
        ensures
            name@ == self.spec_label(),
    {
        match self {
            UseCase::Disk(disk) => disk.label(),
            UseCase::Memory(memory) => memory.label(),
        }
    }

    /// Whether `self` comes strictly before `other` in the order of use cases.
    pub fn precedes(&self, other: &UseCase) -> (r: bool)
        ensures
            r == (self.spec_rank() < other.spec_rank()),
    {
        self.rank() < other.rank()
    }
}

/// Two use cases of one rank are the same use case, and every rank lies
/// below [`USE_CASE_COUNT`]: the rank is a total order on the taxonomy.
pub proof fn lemma_rank_orders_use_cases(a: UseCase, b: UseCase)
    ensures
        a.spec_rank() < USE_CASE_COUNT,
        a.spec_rank() == b.spec_rank() <==> a == b,
{
}

impl From<ProjectLevelDiskCache> for UseCase {
    fn from(value: ProjectLevelDiskCache) -> (r: UseCase) {
        UseCase::Disk(DiskCached::Standalone(value))
    }
}

impl vstd::std_specs::convert::FromSpecImpl<ProjectLevelDiskCache> for UseCase {
    open spec fn obeys_from_spec() -> bool {
        true
    }

    open spec fn from_spec(value: ProjectLevelDiskCache) -> UseCase {
        UseCase::Disk(DiskCached::Standalone(value))
    }
}

impl From<UserLevelDiskCache> for UseCase {
    fn from(value: UserLevelDiskCache) -> (r: UseCase) {
        UseCase::Disk(DiskCached::Shared(value))
    }
}

impl vstd::std_specs::convert::FromSpecImpl<UserLevelDiskCache> for UseCase {
    open spec fn obeys_from_spec() -> bool {
        true
    }

    open spec fn from_spec(value: UserLevelDiskCache) -> UseCase {
        UseCase::Disk(DiskCached::Shared(value))
    }
}

impl From<MemoryCached> for UseCase {
    fn from(value: MemoryCached) -> (r: UseCase) {
        UseCase::Memory(value)
    }
}

impl vstd::std_specs::convert::FromSpecImpl<MemoryCached> for UseCase {
    open spec fn obeys_from_spec() -> bool {
        true
    }

    open spec fn from_spec(value: MemoryCached) -> UseCase {
        UseCase::Memory(value)
    }
}

/// One measurement: the bytes attributed to a use case.
#[derive(Debug, Clone, Copy, PartialEq, Eq, PartialOrd, Ord, Structural)]
pub struct AllocatedResource {
    pub use_case: UseCase,
    pub amount: u64,
}

impl AllocatedResource {
    pub fn new(use_case: UseCase, amount: u64) -> (r: Self)
        ensures
            r.use_case == use_case,
            r.amount == amount,
    {
        Self { use_case, amount }
    }
}

/// What a wipe freed: bytes of disk space, or the number of processes that
/// were terminated when the target is memory.
#[derive(Debug, Clone, Copy, PartialEq, Eq, Structural)]
pub struct WipingOutcome {
    pub reclaimed: u64,
}

impl WipingOutcome {
    pub fn new(reclaimed: u64) -> (r: Self)
        ensures
            r.reclaimed == reclaimed,
    {
        Self { reclaimed }
    }
}

/// The measurements of one evaluation with their grand total.
#[derive(Debug)]
pub struct EvaluationOutcome {
    pub resources: Vec<AllocatedResource>,
    pub total_size: u64,
}

impl EvaluationOutcome {
    pub fn new(resources: Vec<AllocatedResource>, total_size: u64) -> (r: Self)
        ensures
            r.resources == resources,
            r.total_size == total_size,
    {
        Self { resources, total_size }
    }
}

/// The result of one invocation.
#[derive(Debug)]
pub enum ExecutionOutcome {
    Evaluation(EvaluationOutcome),
    Wiping(WipingOutcome),
}

impl ExecutionOutcome {
    /// The evaluation inside this outcome. Asking a wiping outcome for it is
    /// a programming error, which the precondition rules out.
    pub fn as_evaluation(&self) -> (evaluation: &EvaluationOutcome)
        requires
            self is Evaluation,
        ensures
            *self == ExecutionOutcome::Evaluation(*evaluation),
    {
        match self {
            ExecutionOutcome::Evaluation(evaluation) => evaluation,
            ExecutionOutcome::Wiping(_) => vstd::pervasive::unreached(),
        }
    }
}

} // verus!
