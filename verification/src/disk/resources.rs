//! What the caches hold: the files of a walk, attributed to use cases by
//! their paths and added up.

use crate::accounting::{grand_total, group_by_use_case, summarizes};
use crate::amount::{byte_unit_sum, clamp, lemma_clamp_absorbs};
use crate::disk::{DiskEntry, EntryKind, ProjectListing, ScanError};
use crate::models::{
    AllocatedResource, DiskCached, ProjectLevelDiskCache, UseCase, UserLevelDiskCache,
};
use crate::text::{contains, has_infix, starts_with};
use vstd::prelude::*;

verus! {

/// The cache of the Gradle home that a path belongs to. The rules are tried
/// in this order and the first fragment found in the path decides; a path
/// with none of them falls into the residual category.
pub open spec fn gradle_home_cache(path: Seq<char>) -> UserLevelDiskCache {
    if has_infix(path, ".gradle/caches"@) {
        UserLevelDiskCache::GradleBuildCaching
    } else if has_infix(path, ".gradle/configuration-cache"@) {
        UserLevelDiskCache::GradleConfigurationCaching
    } else if has_infix(path, ".gradle/daemon"@) {
        UserLevelDiskCache::GradleDaemonLogs
    } else if has_infix(path, ".gradle/jdks"@) {
        UserLevelDiskCache::GradleJDKToolchains
    } else if has_infix(path, ".gradle/wrapper"@) {
        UserLevelDiskCache::GradleDistributions
    } else if has_infix(path, ".gradle/.tmp"@) {
        UserLevelDiskCache::GradleTemporaryFiles
    } else if has_infix(path, ".gradle/native"@) {
        UserLevelDiskCache::GradleNativeFiles
    } else if has_infix(path, ".gradle/build-scan-data"@) {
        UserLevelDiskCache::GradleBuildScans
    } else {
        UserLevelDiskCache::GradleOtherCaches
    }
}

/// A text holds itself.
proof fn lemma_text_holds_itself(text: Seq<char>)
    ensures
        has_infix(text, text),
{
    assert(text.subrange(0int, 0int + text.len()) == text);
}

/// The shape that the fragments of the rules share: each begins with `.g`
/// and holds `.g` nowhere else. `eighth` and `ninth` are the characters by
/// which one fragment differs from another.
spec fn shaped(text: Seq<char>, eighth: char, ninth: char) -> bool {
    &&& text.len() >= 10
    &&& text[0] == '.'
    &&& text[1] == 'g'
    &&& text[8] == eighth
    &&& text[9] == ninth
    &&& forall|at: int|
        1 <= at && at + 1 < text.len() ==> !(#[trigger] text[at] == '.' && text[at + 1] == 'g')
}

/// A fragment is not in a text of the same shape that differs from it in
/// the eighth or the ninth character.
proof fn lemma_fragment_is_absent(
    text: Seq<char>,
    fragment: Seq<char>,
    eighths: (char, char),
    ninths: (char, char),
)
    requires
        shaped(text, eighths.0, ninths.0),
        shaped(fragment, eighths.1, ninths.1),
        eighths.0 != eighths.1 || ninths.0 != ninths.1,
    ensures
        !has_infix(text, fragment),
{
    if has_infix(text, fragment) {
        let at = choose|at: int|
            0 <= at && at + fragment.len() <= text.len() && #[trigger] text.subrange(
                at,
                at + fragment.len(),
            ) == fragment;
        let found = text.subrange(at, at + fragment.len());
        if at == 0 {
            assert(found[8] == text[8]);
            assert(found[9] == text[9]);
        } else {
            assert(found[0] == text[at]);
            assert(found[1] == text[at + 1]);
        }
    }
}

proof fn lemma_shape_of_build_caching()
    ensures
        shaped(".gradle/caches"@, 'c', 'a'),
{
    reveal_strlit(".gradle/caches");
}

proof fn lemma_shape_of_configuration_caching()
    ensures
        shaped(".gradle/configuration-cache"@, 'c', 'o'),
{
    reveal_strlit(".gradle/configuration-cache");
}

proof fn lemma_shape_of_daemon_logs()
    ensures
        shaped(".gradle/daemon"@, 'd', 'a'),
{
    reveal_strlit(".gradle/daemon");
}

proof fn lemma_shape_of_jdk_toolchains()
    ensures
        shaped(".gradle/jdks"@, 'j', 'd'),
{
    reveal_strlit(".gradle/jdks");
}

proof fn lemma_shape_of_distributions()
    ensures
        shaped(".gradle/wrapper"@, 'w', 'r'),
{
    reveal_strlit(".gradle/wrapper");
}

proof fn lemma_shape_of_temporary_files()
    ensures
        shaped(".gradle/.tmp"@, '.', 't'),
{
    reveal_strlit(".gradle/.tmp");
}

proof fn lemma_shape_of_native_files()
    ensures
        shaped(".gradle/native"@, 'n', 'a'),
{
    reveal_strlit(".gradle/native");
}

proof fn lemma_shape_of_build_scans()
    ensures
        shaped(".gradle/build-scan-data"@, 'b', 'u'),
{
    reveal_strlit(".gradle/build-scan-data");
}

/// The paths of the caches and the rules of classification agree: the
/// directory of each cache of the Gradle home is classified as that cache.
pub proof fn lemma_cache_directory_is_classified_as_its_cache(cache: UserLevelDiskCache)
    requires
        cache != UserLevelDiskCache::GradleOtherCaches,
        cache != UserLevelDiskCache::MavenLocalRepository,
        cache != UserLevelDiskCache::KonanCaches,
    ensures
        cache.spec_path_relative_to_user_home() matches Some(path) && gradle_home_cache(path)
            == cache,
{
    match cache {
        UserLevelDiskCache::GradleBuildCaching => {
            lemma_shape_of_build_caching();
            lemma_text_holds_itself(".gradle/caches"@);
        },
        UserLevelDiskCache::GradleConfigurationCaching => {
            lemma_shape_of_configuration_caching();
            lemma_shape_of_build_caching();
            lemma_fragment_is_absent(
                ".gradle/configuration-cache"@,
                ".gradle/caches"@,
                ('c', 'c'),
                ('o', 'a'),
            );
            lemma_text_holds_itself(".gradle/configuration-cache"@);
        },
        UserLevelDiskCache::GradleDaemonLogs => {
            lemma_shape_of_daemon_logs();
            lemma_shape_of_build_caching();
            lemma_fragment_is_absent(
                ".gradle/daemon"@,
                ".gradle/caches"@,
                ('d', 'c'),
                ('a', 'a'),
            );
            lemma_shape_of_configuration_caching();
            lemma_fragment_is_absent(
                ".gradle/daemon"@,
                ".gradle/configuration-cache"@,
                ('d', 'c'),
                ('a', 'o'),
            );
            lemma_text_holds_itself(".gradle/daemon"@);
        },
        UserLevelDiskCache::GradleJDKToolchains => {
            lemma_shape_of_jdk_toolchains();
            lemma_shape_of_build_caching();
            lemma_fragment_is_absent(
                ".gradle/jdks"@,
                ".gradle/caches"@,
                ('j', 'c'),
                ('d', 'a'),
            );
            lemma_shape_of_configuration_caching();
            lemma_fragment_is_absent(
                ".gradle/jdks"@,
                ".gradle/configuration-cache"@,
                ('j', 'c'),
                ('d', 'o'),
            );
            lemma_shape_of_daemon_logs();
            lemma_fragment_is_absent(
                ".gradle/jdks"@,
                ".gradle/daemon"@,
                ('j', 'd'),
                ('d', 'a'),
            );
            lemma_text_holds_itself(".gradle/jdks"@);
        },
        UserLevelDiskCache::GradleDistributions => {
            lemma_shape_of_distributions();
            lemma_shape_of_build_caching();
            lemma_fragment_is_absent(
                ".gradle/wrapper"@,
                ".gradle/caches"@,
                ('w', 'c'),
                ('r', 'a'),
            );
            lemma_shape_of_configuration_caching();
            lemma_fragment_is_absent(
                ".gradle/wrapper"@,
                ".gradle/configuration-cache"@,
                ('w', 'c'),
                ('r', 'o'),
            );
            lemma_shape_of_daemon_logs();
            lemma_fragment_is_absent(
                ".gradle/wrapper"@,
                ".gradle/daemon"@,
                ('w', 'd'),
                ('r', 'a'),
            );
            lemma_shape_of_jdk_toolchains();
            lemma_fragment_is_absent(
                ".gradle/wrapper"@,
                ".gradle/jdks"@,
                ('w', 'j'),
                ('r', 'd'),
            );
            lemma_text_holds_itself(".gradle/wrapper"@);
        },
        UserLevelDiskCache::GradleTemporaryFiles => {
            lemma_shape_of_temporary_files();
            lemma_shape_of_build_caching();
            lemma_fragment_is_absent(
                ".gradle/.tmp"@,
                ".gradle/caches"@,
                ('.', 'c'),
                ('t', 'a'),
            );
            lemma_shape_of_configuration_caching();
            lemma_fragment_is_absent(
                ".gradle/.tmp"@,
                ".gradle/configuration-cache"@,
                ('.', 'c'),
                ('t', 'o'),
            );
            lemma_shape_of_daemon_logs();
            lemma_fragment_is_absent(
                ".gradle/.tmp"@,
                ".gradle/daemon"@,
                ('.', 'd'),
                ('t', 'a'),
            );
            lemma_shape_of_jdk_toolchains();
            lemma_fragment_is_absent(
                ".gradle/.tmp"@,
                ".gradle/jdks"@,
                ('.', 'j'),
                ('t', 'd'),
            );
            lemma_shape_of_distributions();
            lemma_fragment_is_absent(
                ".gradle/.tmp"@,
                ".gradle/wrapper"@,
                ('.', 'w'),
                ('t', 'r'),
            );
            lemma_text_holds_itself(".gradle/.tmp"@);
        },
        UserLevelDiskCache::GradleNativeFiles => {
            lemma_shape_of_native_files();
            lemma_shape_of_build_caching();
            lemma_fragment_is_absent(
                ".gradle/native"@,
                ".gradle/caches"@,
                ('n', 'c'),
                ('a', 'a'),
            );
            lemma_shape_of_configuration_caching();
            lemma_fragment_is_absent(
                ".gradle/native"@,
                ".gradle/configuration-cache"@,
                ('n', 'c'),
                ('a', 'o'),
            );
            lemma_shape_of_daemon_logs();
            lemma_fragment_is_absent(
                ".gradle/native"@,
                ".gradle/daemon"@,
                ('n', 'd'),
                ('a', 'a'),
            );
            lemma_shape_of_jdk_toolchains();
            lemma_fragment_is_absent(
                ".gradle/native"@,
                ".gradle/jdks"@,
                ('n', 'j'),
                ('a', 'd'),
            );
            lemma_shape_of_distributions();
            lemma_fragment_is_absent(
                ".gradle/native"@,
                ".gradle/wrapper"@,
                ('n', 'w'),
                ('a', 'r'),
            );
            lemma_shape_of_temporary_files();
            lemma_fragment_is_absent(
                ".gradle/native"@,
                ".gradle/.tmp"@,
                ('n', '.'),
                ('a', 't'),
            );
            lemma_text_holds_itself(".gradle/native"@);
        },
        UserLevelDiskCache::GradleBuildScans => {
            lemma_shape_of_build_scans();
            lemma_shape_of_build_caching();
            lemma_fragment_is_absent(
                ".gradle/build-scan-data"@,
                ".gradle/caches"@,
                ('b', 'c'),
                ('u', 'a'),
            );
            lemma_shape_of_configuration_caching();
            lemma_fragment_is_absent(
                ".gradle/build-scan-data"@,
                ".gradle/configuration-cache"@,
                ('b', 'c'),
                ('u', 'o'),
            );
            lemma_shape_of_daemon_logs();
            lemma_fragment_is_absent(
                ".gradle/build-scan-data"@,
                ".gradle/daemon"@,
                ('b', 'd'),
                ('u', 'a'),
            );
            lemma_shape_of_jdk_toolchains();
            lemma_fragment_is_absent(
                ".gradle/build-scan-data"@,
                ".gradle/jdks"@,
                ('b', 'j'),
                ('u', 'd'),
            );
            lemma_shape_of_distributions();
            lemma_fragment_is_absent(
                ".gradle/build-scan-data"@,
                ".gradle/wrapper"@,
                ('b', 'w'),
                ('u', 'r'),
            );
            lemma_shape_of_temporary_files();
            lemma_fragment_is_absent(
                ".gradle/build-scan-data"@,
                ".gradle/.tmp"@,
                ('b', '.'),
                ('u', 't'),
            );
            lemma_shape_of_native_files();
            lemma_fragment_is_absent(
                ".gradle/build-scan-data"@,
                ".gradle/native"@,
                ('b', 'n'),
                ('u', 'a'),
            );
            lemma_text_holds_itself(".gradle/build-scan-data"@);
        },
        _ => {},
    }
}

/// Classifies a path found below the Gradle home. Every path has a use
/// case: what matches no rule is residual.
pub fn evaluate_use_case_from_gradle_home(path: &str) -> (use_case: UseCase)
    ensures
        use_case == UseCase::Disk(DiskCached::Shared(gradle_home_cache(path@))),
{
    let cache_type = if contains(path, ".gradle/caches") {
        UserLevelDiskCache::GradleBuildCaching
    } else if contains(path, ".gradle/configuration-cache") {
        UserLevelDiskCache::GradleConfigurationCaching
    } else if contains(path, ".gradle/daemon") {
        UserLevelDiskCache::GradleDaemonLogs
    } else if contains(path, ".gradle/jdks") {
        UserLevelDiskCache::GradleJDKToolchains
    } else if contains(path, ".gradle/wrapper") {
        UserLevelDiskCache::GradleDistributions
    } else if contains(path, ".gradle/.tmp") {
        UserLevelDiskCache::GradleTemporaryFiles
    } else if contains(path, ".gradle/native") {
        UserLevelDiskCache::GradleNativeFiles
    } else if contains(path, ".gradle/build-scan-data") {
        UserLevelDiskCache::GradleBuildScans
    } else {
        UserLevelDiskCache::GradleOtherCaches
    };
    UseCase::from(cache_type)
}

/// The path lies below a directory literally named `build`.
pub open spec fn under_build_dir(path: Seq<char>) -> bool {
    has_infix(path, "/build/"@) || "build/"@.is_prefix_of(path)
}

/// Which entries of a walk a scan counts.
#[derive(Debug, Clone, Copy, PartialEq, Eq, Structural)]
pub enum FileFilter {
    /// Every regular file.
    EveryFile,
    /// Regular files below a directory named `build`.
    BuildOutputFile,
}

impl FileFilter {
    pub open spec fn accepts(self, entry: DiskEntry) -> bool {
        match self {
            FileFilter::EveryFile => entry.kind == EntryKind::File,
            FileFilter::BuildOutputFile => entry.kind == EntryKind::File && under_build_dir(
                entry.path@,
            ),
        }
    }
}

/// Whether the entry is a regular file.
pub fn ensure_file(entry: &DiskEntry) -> (file: bool)
    ensures
        file == FileFilter::EveryFile.accepts(*entry),
{
    match entry.kind {
        EntryKind::File => true,
        _ => false,
    }
}

/// Whether the entry is a regular file of a build output.
pub fn ensure_build_output_file(entry: &DiskEntry) -> (file: bool)
    ensures
        file == FileFilter::BuildOutputFile.accepts(*entry),
{
    let path = entry.path.as_str();
    let build_output = contains(path, "/build/") || starts_with(path, "build/");
    let build_output_file = ensure_file(entry);
    build_output && build_output_file
}

/// Every entry of the walk has its metadata.
pub open spec fn measured(entries: Seq<DiskEntry>) -> bool {
    forall|i: int| 0 <= i < entries.len() ==> (#[trigger] entries[i]).size is Some
}

/// `error` names the first entry of the walk without metadata.
pub open spec fn scan_failure(entries: Seq<DiskEntry>, error: ScanError) -> bool {
    &&& error matches ScanError::MetadataUnavailable { entry }
    &&& entry < entries.len()
    &&& entries[entry as int].size is None
    &&& forall|i: int| 0 <= i < entry ==> (#[trigger] entries[i]).size is Some
}

/// What one entry contributes to a scan that attributes all it counts to
/// `use_case`.
pub open spec fn attributed(entry: DiskEntry, filter: FileFilter, use_case: UseCase) -> Option<
    AllocatedResource,
> {
    if filter.accepts(entry) && entry.size is Some {
        Some(AllocatedResource { use_case, amount: entry.size->0 })
    } else {
        None
    }
}

/// The measurements of a scan that attributes all it counts to `use_case`.
pub open spec fn attributed_files(
    entries: Seq<DiskEntry>,
    filter: FileFilter,
    use_case: UseCase,
) -> Seq<AllocatedResource> {
    entries.filter_map(|entry: DiskEntry| attributed(entry, filter, use_case))
}

/// What one entry below the Gradle home contributes: a regular file counts
/// for the cache that its path belongs to, unless that is the residual one.
pub open spec fn gradle_home_file(entry: DiskEntry) -> Option<AllocatedResource> {
    if entry.kind == EntryKind::File && gradle_home_cache(entry.path@)
        != UserLevelDiskCache::GradleOtherCaches && entry.size is Some {
        Some(
            AllocatedResource {
                use_case: UseCase::Disk(DiskCached::Shared(gradle_home_cache(entry.path@))),
                amount: entry.size->0,
            },
        )
    } else {
        None
    }
}

/// The measurements of a walk of the Gradle home.
pub open spec fn gradle_home_files(entries: Seq<DiskEntry>) -> Seq<AllocatedResource> {
    entries.filter_map(|entry: DiskEntry| gradle_home_file(entry))
}

/// The bytes of the entries that `filter` counts.
pub open spec fn disk_size(entries: Seq<DiskEntry>, filter: FileFilter) -> nat
    decreases entries.len(),
{
    if entries.len() == 0 {
        0
    } else if filter.accepts(entries.last()) && entries.last().size is Some {
        disk_size(entries.drop_last(), filter) + entries.last().size->0 as nat
    } else {
        disk_size(entries.drop_last(), filter)
    }
}

/// The size of a scan is the sum of its measurements, whatever use case
/// they are attributed to.
pub proof fn lemma_disk_size_is_total(
    entries: Seq<DiskEntry>,
    filter: FileFilter,
    use_case: UseCase,
)
    ensures
        disk_size(entries, filter) == grand_total(attributed_files(entries, filter, use_case)),
    decreases entries.len(),
{
    if entries.len() > 0 {
        lemma_disk_size_is_total(entries.drop_last(), filter, use_case);
        let rest = attributed_files(entries.drop_last(), filter, use_case);
        match attributed(entries.last(), filter, use_case) {
            Some(item) => {
                assert((rest + seq![item]).drop_last() == rest);
            },
            None => {},
        }
    }
}

/// The measurements of a walk under one filter, all attributed to
/// `use_case`. A walk with an entry that has no metadata is not measured.
pub fn measure_files(entries: &Vec<DiskEntry>, filter: FileFilter, use_case: UseCase) -> (result:
    Result<Vec<AllocatedResource>, ScanError>)
    ensures
        match result {
            Ok(files) => measured(entries@) && files@ == attributed_files(
                entries@,
                filter,
                use_case,
            ),
            Err(error) => scan_failure(entries@, error),
        },
{
    let mut files: Vec<AllocatedResource> = Vec::new();
    let mut i: usize = 0;
    while i < entries.len()
        invariant
            i <= entries.len(),
            measured(entries@.take(i as int)),
            files@ == attributed_files(entries@.take(i as int), filter, use_case),
        decreases entries.len() - i,
    {
        let entry = &entries[i];
        proof {
            assert(entries@.take(i + 1).drop_last() == entries@.take(i as int));
            assert forall|k: int| 0 <= k < i implies (#[trigger] entries@[k]).size is Some by {
                assert(entries@.take(i as int)[k].size is Some);
            }
        }
        match entry.size {
            None => {
                return Err(ScanError::MetadataUnavailable { entry: i });
            },
            Some(size) => {
                let counted = match filter {
                    FileFilter::EveryFile => ensure_file(entry),
                    FileFilter::BuildOutputFile => ensure_build_output_file(entry),
                };
                if counted {
                    files.push(AllocatedResource::new(use_case, size));
                }
            },
        }
        proof {
            assert forall|k: int| 0 <= k < i + 1 implies (#[trigger] entries@.take(
                i + 1,
            )[k]).size is Some by {
                if k < i {
                    assert(entries@.take(i as int)[k].size is Some);
                }
            }
        }
        i += 1;
    }
    proof {
        assert(entries@.take(entries.len() as int) == entries@);
    }
    Ok(files)
}

/// The measurements of a walk of the Gradle home: every regular file that
/// belongs to a cache other than the residual one.
pub fn measure_gradle_home(entries: &Vec<DiskEntry>) -> (result: Result<
    Vec<AllocatedResource>,
    ScanError,
>)
    ensures
        match result {
            Ok(files) => measured(entries@) && files@ == gradle_home_files(entries@),
            Err(error) => scan_failure(entries@, error),
        },
{
    let mut files: Vec<AllocatedResource> = Vec::new();
    let mut i: usize = 0;
    while i < entries.len()
        invariant
            i <= entries.len(),
            measured(entries@.take(i as int)),
            files@ == gradle_home_files(entries@.take(i as int)),
        decreases entries.len() - i,
    {
        let entry = &entries[i];
        proof {
            assert(entries@.take(i + 1).drop_last() == entries@.take(i as int));
            assert forall|k: int| 0 <= k < i implies (#[trigger] entries@[k]).size is Some by {
                assert(entries@.take(i as int)[k].size is Some);
            }
        }
        match entry.size {
            None => {
                return Err(ScanError::MetadataUnavailable { entry: i });
            },
            Some(size) => {
                if ensure_file(entry) {
                    let use_case = evaluate_use_case_from_gradle_home(entry.path.as_str());
                    if use_case != UseCase::from(UserLevelDiskCache::GradleOtherCaches) {
                        files.push(AllocatedResource::new(use_case, size));
                    }
                }
            },
        }
        proof {
            assert forall|k: int| 0 <= k < i + 1 implies (#[trigger] entries@.take(
                i + 1,
            )[k]).size is Some by {
                if k < i {
                    assert(entries@.take(i as int)[k].size is Some);
                }
            }
        }
        i += 1;
    }
    proof {
        assert(entries@.take(entries.len() as int) == entries@);
    }
    Ok(files)
}

/// The scan of the machine-wide Gradle home: one entry per cache that has
/// a file, in the order of use cases, each with the bytes of its files.
/// An empty walk, which is what an absent home gives, has no entry.
pub fn resources_used_by_gradle_home(entries: &Vec<DiskEntry>) -> (result: Result<
    Vec<AllocatedResource>,
    ScanError,
>)
    ensures
        match result {
            Ok(resources) => measured(entries@) && summarizes(
                resources@,
                gradle_home_files(entries@),
            ),
            Err(error) => scan_failure(entries@, error),
        },
        entries@.len() == 0 ==> result is Ok && result->Ok_0@.len() == 0,
{
    match measure_gradle_home(entries) {
        Err(error) => Err(error),
        Ok(files) => {
            let resources = group_by_use_case(files);
            proof {
                crate::accounting::lemma_summary_of_nothing(
                    resources@,
                    gradle_home_files(entries@),
                );
            }
            Ok(resources)
        },
    }
}

/// The bytes of the entries of a walk that `filter` counts, saturated. An
/// empty walk, which is what an absent directory gives, has size zero.
pub fn total_disk_size(entries: &Vec<DiskEntry>, filter: FileFilter) -> (result: Result<
    u64,
    ScanError,
>)
    ensures
        match result {
            Ok(size) => measured(entries@) && size == clamp(disk_size(entries@, filter) as int),
            Err(error) => scan_failure(entries@, error),
        },
        entries@.len() == 0 ==> result == Ok::<u64, ScanError>(0),
{
    let mut total: u64 = 0;
    let mut i: usize = 0;
    while i < entries.len()
        invariant
            i <= entries.len(),
            measured(entries@.take(i as int)),
            total == clamp(disk_size(entries@.take(i as int), filter) as int),
        decreases entries.len() - i,
    {
        let entry = &entries[i];
        proof {
            assert(entries@.take(i + 1).drop_last() == entries@.take(i as int));
            assert forall|k: int| 0 <= k < i implies (#[trigger] entries@[k]).size is Some by {
                assert(entries@.take(i as int)[k].size is Some);
            }
        }
        match entry.size {
            None => {
                return Err(ScanError::MetadataUnavailable { entry: i });
            },
            Some(size) => {
                let counted = match filter {
                    FileFilter::EveryFile => ensure_file(entry),
                    FileFilter::BuildOutputFile => ensure_build_output_file(entry),
                };
                if counted {
                    proof {
                        lemma_clamp_absorbs(
                            disk_size(entries@.take(i as int), filter) as int,
                            size,
                        );
                    }
                    total = byte_unit_sum(total, size);
                }
            },
        }
        proof {
            assert forall|k: int| 0 <= k < i + 1 implies (#[trigger] entries@.take(
                i + 1,
            )[k]).size is Some by {
                if k < i {
                    assert(entries@.take(i as int)[k].size is Some);
                }
            }
        }
        i += 1;
    }
    proof {
        assert(entries@.take(entries.len() as int) == entries@);
    }
    Ok(total)
}

/// The scan of the local Maven repository: the bytes of all its files,
/// whatever their paths.
pub fn resources_used_by_maven_local_repository(entries: &Vec<DiskEntry>) -> (result: Result<
    AllocatedResource,
    ScanError,
>)
    ensures
        match result {
            Ok(resource) => measured(entries@) && resource.use_case == UseCase::Disk(
                DiskCached::Shared(UserLevelDiskCache::MavenLocalRepository),
            ) && resource.amount == clamp(disk_size(entries@, FileFilter::EveryFile) as int),
            Err(error) => scan_failure(entries@, error),
        },
        entries@.len() == 0 ==> result is Ok && result->Ok_0.amount == 0,
{
    let use_case = UseCase::from(UserLevelDiskCache::MavenLocalRepository);
    match total_disk_size(entries, FileFilter::EveryFile) {
        Err(error) => Err(error),
        Ok(disk_size) => Ok(AllocatedResource::new(use_case, disk_size)),
    }
}

/// The scan of the Kotlin/Native caches: the bytes of all their files.
pub fn resources_used_by_konan(entries: &Vec<DiskEntry>) -> (result: Result<
    AllocatedResource,
    ScanError,
>)
    ensures
        match result {
            Ok(resource) => measured(entries@) && resource.use_case == UseCase::Disk(
                DiskCached::Shared(UserLevelDiskCache::KonanCaches),
            ) && resource.amount == clamp(disk_size(entries@, FileFilter::EveryFile) as int),
            Err(error) => scan_failure(entries@, error),
        },
        entries@.len() == 0 ==> result is Ok && result->Ok_0.amount == 0,
{
    let use_case = UseCase::from(UserLevelDiskCache::KonanCaches);
    match total_disk_size(entries, FileFilter::EveryFile) {
        Err(error) => Err(error),
        Ok(disk_size) => Ok(AllocatedResource::new(use_case, disk_size)),
    }
}

/// The scan of one project: the bytes of its build output files.
pub fn resources_used_per_gradle_project(entries: &Vec<DiskEntry>) -> (result: Result<
    AllocatedResource,
    ScanError,
>)
    ensures
        match result {
            Ok(resource) => measured(entries@) && resource.use_case == UseCase::Disk(
                DiskCached::Standalone(ProjectLevelDiskCache::BuildOutput),
            ) && resource.amount == clamp(
                disk_size(entries@, FileFilter::BuildOutputFile) as int,
            ),
            Err(error) => scan_failure(entries@, error),
        },
        entries@.len() == 0 ==> result is Ok && result->Ok_0.amount == 0,
{
    let use_case = UseCase::from(ProjectLevelDiskCache::BuildOutput);
    match total_disk_size(entries, FileFilter::BuildOutputFile) {
        Err(error) => Err(error),
        Ok(disk_size) => Ok(AllocatedResource::new(use_case, disk_size)),
    }
}

/// The bytes of the build output files of all `projects`.
pub open spec fn build_output_size(projects: Seq<ProjectListing>) -> nat
    decreases projects.len(),
{
    if projects.len() == 0 {
        0
    } else {
        build_output_size(projects.drop_last()) + disk_size(
            projects.last().entries@,
            FileFilter::BuildOutputFile,
        )
    }
}

/// Every walk of every project has its metadata.
pub open spec fn projects_measured(projects: Seq<ProjectListing>) -> bool {
    forall|p: int| 0 <= p < projects.len() ==> measured((#[trigger] projects[p]).entries@)
}

/// `error` names the first entry without metadata in the first project
/// that has one.
pub open spec fn projects_scan_failure(projects: Seq<ProjectListing>, error: ScanError) -> bool {
    exists|p: int|
        0 <= p < projects.len() && scan_failure((#[trigger] projects[p]).entries@, error)
            && projects_measured(projects.take(p))
}

/// The scan of the projects: the bytes of the build output files of all of
/// them together. Without projects that is zero.
pub fn resources_used_by_gradle_projects(projects: &Vec<ProjectListing>) -> (result: Result<
    AllocatedResource,
    ScanError,
>)
    ensures
        match result {
            Ok(resource) => projects_measured(projects@) && resource.use_case == UseCase::Disk(
                DiskCached::Standalone(ProjectLevelDiskCache::BuildOutput),
            ) && resource.amount == clamp(build_output_size(projects@) as int),
            Err(error) => projects_scan_failure(projects@, error),
        },
        projects@.len() == 0 ==> result is Ok && result->Ok_0.amount == 0,
{
    let use_case = UseCase::from(ProjectLevelDiskCache::BuildOutput);
    let mut total_amount: u64 = 0;
    let mut i: usize = 0;
    while i < projects.len()
        invariant
            i <= projects.len(),
            projects_measured(projects@.take(i as int)),
            total_amount == clamp(build_output_size(projects@.take(i as int)) as int),
        decreases projects.len() - i,
    {
        proof {
            assert(projects@.take(i + 1).drop_last() == projects@.take(i as int));
        }
        match resources_used_per_gradle_project(&projects[i].entries) {
            Err(error) => {
                return Err(error);
            },
            Ok(allocation) => {
                proof {
                    let before = build_output_size(projects@.take(i as int)) as int;
                    let size = disk_size(projects@[i as int].entries@, FileFilter::BuildOutputFile);
                    assert(clamp(clamp(before) + clamp(size as int)) == clamp(before + size));
                }
                total_amount = byte_unit_sum(total_amount, allocation.amount);
            },
        }
        proof {
            assert forall|p: int| 0 <= p < i + 1 implies measured(
                (#[trigger] projects@.take(i + 1)[p]).entries@,
            ) by {
                if p < i {
                    assert(measured(projects@.take(i as int)[p].entries@));
                }
            }
        }
        i += 1;
    }
    proof {
        assert(projects@.take(projects.len() as int) == projects@);
    }
    Ok(AllocatedResource::new(use_case, total_amount))
}

} // verus!
