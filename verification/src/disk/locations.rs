//! Where things are: the cache directories below the user's home, the
//! Gradle projects among the directories of a walk, and the paths that a
//! category of disk usage stands for.

use crate::disk::{DiskEntry, EntryKind, ProjectListing};
use crate::models::{DiskCached, ProjectLevelDiskCache};
use crate::text::{ends_with, same_text, text_le};
use itertools::Itertools;
use vstd::prelude::*;
use vstd::string::{StrSliceExecFns, StringExecFns};

verus! {

/// `child` adjoined to `base` the way paths are joined on Unix: an absolute
/// `child` replaces `base`, and a separator is put between the two unless
/// `base` is empty or already ends in one.
pub open spec fn joined(base: Seq<char>, child: Seq<char>) -> Seq<char> {
    if child.len() > 0 && child[0] == '/' {
        child
    } else if base.len() == 0 || base.last() == '/' {
        base + child
    } else {
        base + seq!['/'] + child
    }
}

/// Joins two paths.
pub fn join(base: &str, child: &str) -> (path: String)
    ensures
        path@ == joined(base@, child@),
{
    if child.unicode_len() > 0 && child.get_char(0) == '/' {
        return String::from_str(child);
    }
    let length = base.unicode_len();
    let mut path = String::from_str(base);
    if length > 0 && base.get_char(length - 1) != '/' {
        proof {
            reveal_strlit("/");
            assert("/"@ == seq!['/']);
        }
        path.append("/");
    }
    path.append(child);
    path
}

/// The Gradle home: `.gradle` in the user's home directory.
pub fn find_gradle_home(user_home: &str) -> (path: String)
    ensures
        path@ == joined(user_home@, ".gradle"@),
{
    join(user_home, ".gradle")
}

/// The local Maven repository: `.m2` in the user's home directory.
pub fn find_maven_local_repository(user_home: &str) -> (path: String)
    ensures
        path@ == joined(user_home@, ".m2"@),
{
    join(user_home, ".m2")
}

/// The Kotlin/Native caches: `.konan` in the user's home directory.
pub fn find_konan_caches(user_home: &str) -> (path: String)
    ensures
        path@ == joined(user_home@, ".konan"@),
{
    join(user_home, ".konan")
}

/// A directory met on a walk, with the marker files found directly in it.
#[derive(Debug)]
pub struct ProjectMarkers {
    pub path: String,
    /// `settings.gradle` is there.
    pub settings_groovy: bool,
    /// `settings.gradle.kts` is there.
    pub settings_kotlin: bool,
    /// `build.gradle` is there.
    pub build_groovy: bool,
    /// `build.gradle.kts` is there.
    pub build_kotlin: bool,
    /// `gradlew` is there.
    pub wrapper_script: bool,
    /// `gradle.properties` is there.
    pub properties: bool,
}

impl ProjectMarkers {
    /// A settings file in either dialect.
    pub open spec fn has_settings(self) -> bool {
        self.settings_groovy || self.settings_kotlin
    }

    /// A build file in either dialect.
    pub open spec fn has_build(self) -> bool {
        self.build_groovy || self.build_kotlin
    }

    /// The four-part test: a build file, a settings file, the wrapper
    /// script and the properties file, all of them.
    pub open spec fn is_gradle_project(self) -> bool {
        self.has_build() && self.has_settings() && self.wrapper_script && self.properties
    }
}

/// Whether the directory is the root of a Gradle project.
pub fn ensure_gradle_project(entry: &ProjectMarkers) -> (found: bool)
    ensures
        found == entry.is_gradle_project(),
{
    let has_top_level_settings_config = entry.settings_groovy || entry.settings_kotlin;
    let has_top_level_build_config = entry.build_groovy || entry.build_kotlin;
    has_top_level_build_config && has_top_level_settings_config && entry.wrapper_script
        && entry.properties
}

/// `projects` is the answer of project discovery on `candidates`: strictly
/// ascending, so sorted and free of duplicates, and holding exactly the
/// paths of the candidates that pass the four-part test.
pub open spec fn lists_gradle_projects(
    projects: Seq<Seq<char>>,
    candidates: Seq<ProjectMarkers>,
) -> bool {
    &&& forall|i: int, j: int|
        0 <= i < j < projects.len() ==> text_le(#[trigger] projects[i], #[trigger] projects[j])
            && projects[i] != projects[j]
    &&& forall|path: Seq<char>| #[trigger]
        projects.contains(path) <==> exists|k: int|
            0 <= k < candidates.len() && (#[trigger] candidates[k]).path@ == path
                && candidates[k].is_gradle_project()
}

/// `Itertools::sorted` on strings, which sorts them with the order of
/// `String`: the result holds the same strings, each as often as before,
/// in ascending order.
#[verifier::external_body]
pub(crate) fn sorted_paths(paths: Vec<String>) -> (sorted: Vec<String>)
    ensures
        sorted.deep_view().to_multiset() == paths.deep_view().to_multiset(),
        forall|i: int, j: int|
            0 <= i <= j < sorted@.len() ==> text_le(
                (#[trigger] sorted@[i])@,
                (#[trigger] sorted@[j])@,
            ),
{
    paths.into_iter().sorted().collect()
}

fn is_listed(paths: &Vec<String>, path: &str) -> (found: bool)
    ensures
        found == paths.deep_view().contains(path@),
{
    let mut i: usize = 0;
    while i < paths.len()
        invariant
            i <= paths.len(),
            forall|k: int| 0 <= k < i ==> paths.deep_view()[k] != path@,
        decreases paths.len() - i,
    {
        if same_text(paths[i].as_str(), path) {
            proof {
                assert(paths.deep_view()[i as int] == path@);
            }
            return true;
        }
        i += 1;
    }
    false
}

fn clone_paths(paths: &Vec<String>) -> (copy: Vec<String>)
    ensures
        copy.deep_view() == paths.deep_view(),
{
    let mut copy: Vec<String> = Vec::new();
    let mut i: usize = 0;
    while i < paths.len()
        invariant
            i <= paths.len(),
            copy@.len() == i,
            forall|k: int| 0 <= k < i ==> copy@[k]@ == paths@[k]@,
        decreases paths.len() - i,
    {
        copy.push(paths[i].clone());
        i += 1;
    }
    proof {
        assert(copy.deep_view() =~= paths.deep_view());
    }
    copy
}

/// Project discovery: of the directories of a walk, the roots of Gradle
/// projects, sorted and without duplicates.
pub fn find_all_gradle_projects(candidates: &Vec<ProjectMarkers>) -> (projects: Vec<String>)
    ensures
        lists_gradle_projects(projects.deep_view(), candidates@),
{
    let mut selected: Vec<String> = Vec::new();
    let mut i: usize = 0;
    while i < candidates.len()
        invariant
            i <= candidates.len(),
            selected.deep_view().no_duplicates(),
            forall|path: Seq<char>| #[trigger]
                selected.deep_view().contains(path) <==> exists|k: int|
                    0 <= k < i && (#[trigger] candidates@[k]).path@ == path
                        && candidates@[k].is_gradle_project(),
        decreases candidates.len() - i,
    {
        let candidate = &candidates[i];
        let ghost before = selected.deep_view();
        if ensure_gradle_project(candidate) && !is_listed(&selected, candidate.path.as_str()) {
            selected.push(candidate.path.clone());
            proof {
                assert(selected.deep_view() =~= before.push(candidate.path@));
                assert forall|path: Seq<char>| #[trigger]
                    selected.deep_view().contains(path) <==> exists|k: int|
                        0 <= k < i + 1 && (#[trigger] candidates@[k]).path@ == path
                            && candidates@[k].is_gradle_project() by {
                    if selected.deep_view().contains(path) {
                        let at = choose|at: int|
                            0 <= at < selected.deep_view().len() && selected.deep_view()[at]
                                == path;
                        if at < before.len() {
                            assert(before[at] == path);
                            assert(before.contains(path));
                        } else {
                            assert(candidates@[i as int].path@ == path);
                        }
                    }
                    if exists|k: int|
                        0 <= k < i + 1 && (#[trigger] candidates@[k]).path@ == path
                            && candidates@[k].is_gradle_project() {
                        let k = choose|k: int|
                            0 <= k < i + 1 && (#[trigger] candidates@[k]).path@ == path
                                && candidates@[k].is_gradle_project();
                        if k < i {
                            assert(before.contains(path));
                            let at = choose|at: int| 0 <= at < before.len() && before[at] == path;
                            assert(selected.deep_view()[at] == path);
                        } else {
                            assert(selected.deep_view()[before.len() as int] == path);
                        }
                    }
                }
            }
        } else {
            proof {
                assert forall|path: Seq<char>| #[trigger]
                    selected.deep_view().contains(path) <==> exists|k: int|
                        0 <= k < i + 1 && (#[trigger] candidates@[k]).path@ == path
                            && candidates@[k].is_gradle_project() by {
                    if exists|k: int|
                        0 <= k < i + 1 && (#[trigger] candidates@[k]).path@ == path
                            && candidates@[k].is_gradle_project() {
                        let k = choose|k: int|
                            0 <= k < i + 1 && (#[trigger] candidates@[k]).path@ == path
                                && candidates@[k].is_gradle_project();
                        if k == i {
                            assert(before.contains(path));
                        }
                    }
                }
            }
        }
        i += 1;
    }
    let ghost chosen = selected.deep_view();
    let projects = sorted_paths(selected);
    proof {
        let listed = projects.deep_view();
        chosen.lemma_multiset_has_no_duplicates();
        listed.lemma_multiset_has_no_duplicates_conv();
        assert forall|path: Seq<char>| #[trigger] listed.contains(path) <==> chosen.contains(
            path,
        ) by {
            vstd::seq_lib::to_multiset_contains(listed, path);
            vstd::seq_lib::to_multiset_contains(chosen, path);
        }
        assert forall|a: int, b: int| 0 <= a < b < listed.len() implies text_le(
            #[trigger] listed[a],
            #[trigger] listed[b],
        ) && listed[a] != listed[b] by {
            assert(text_le(projects@[a]@, projects@[b]@));
        }
    }
    projects
}

/// Removing any one of the four markers from a directory excludes it from
/// discovery: a path whose candidates all lack a build file, a settings
/// file, the wrapper script or the properties file is not listed.
pub proof fn lemma_missing_marker_excludes(
    projects: Seq<Seq<char>>,
    candidates: Seq<ProjectMarkers>,
    path: Seq<char>,
)
    requires
        lists_gradle_projects(projects, candidates),
        forall|k: int|
            0 <= k < candidates.len() && (#[trigger] candidates[k]).path@ == path ==> {
                ||| !candidates[k].has_build()
                ||| !candidates[k].has_settings()
                ||| !candidates[k].wrapper_script
                ||| !candidates[k].properties
            },
    ensures
        !projects.contains(path),
{
}

/// Discovery returns only directories that carry all four markers.
pub proof fn lemma_listed_project_has_all_markers(
    projects: Seq<Seq<char>>,
    candidates: Seq<ProjectMarkers>,
    at: int,
)
    requires
        lists_gradle_projects(projects, candidates),
        0 <= at < projects.len(),
    ensures
        exists|k: int|
            0 <= k < candidates.len() && (#[trigger] candidates[k]).path@ == projects[at]
                && candidates[k].has_build() && candidates[k].has_settings()
                && candidates[k].wrapper_script && candidates[k].properties,
{
    assert(projects.contains(projects[at]));
}

/// What project discovery found, remembered per root that was walked, so
/// that a root is walked once.
#[derive(Debug)]
pub struct ProjectCache {
    entries: Vec<(String, Vec<String>)>,
}

/// The map that a list of remembered answers stands for; a later answer
/// for a root replaces an earlier one.
pub open spec fn remembered(entries: Seq<(String, Vec<String>)>) -> Map<
    Seq<char>,
    Seq<Seq<char>>,
>
    decreases entries.len(),
{
    if entries.len() == 0 {
        Map::empty()
    } else {
        remembered(entries.drop_last()).insert(
            entries.last().0@,
            entries.last().1.deep_view(),
        )
    }
}

impl View for ProjectCache {
    type V = Map<Seq<char>, Seq<Seq<char>>>;

    /// The projects found below each root that was walked.
    closed spec fn view(&self) -> Map<Seq<char>, Seq<Seq<char>>> {
        remembered(self.entries@)
    }
}

impl ProjectCache {
    /// A cache that knows no root.
    pub fn new() -> (cache: Self)
        ensures
            cache@ == Map::<Seq<char>, Seq<Seq<char>>>::empty(),
    {
        ProjectCache { entries: Vec::new() }
    }

    /// The projects below `root`, if that root was walked before.
    pub fn lookup(&self, root: &str) -> (found: Option<Vec<String>>)
        ensures
            match found {
                Some(projects) => self@.contains_key(root@) && projects.deep_view()
                    == self@[root@],
                None => !self@.contains_key(root@),
            },
    {
        let mut i: usize = self.entries.len();
        proof {
            assert(self.entries@.subrange(0, i as int) == self.entries@);
        }
        while i > 0
            invariant
                i <= self.entries.len(),
                self@ == remembered(self.entries@),
                remembered(self.entries@).contains_key(root@) <==> remembered(
                    self.entries@.subrange(0, i as int),
                ).contains_key(root@),
                remembered(self.entries@).contains_key(root@) ==> remembered(self.entries@)[root@]
                    == remembered(self.entries@.subrange(0, i as int))[root@],
            decreases i,
        {
            let ghost upto = self.entries@.subrange(0, i as int);
            proof {
                assert(upto.drop_last() == self.entries@.subrange(0, i - 1));
                assert(upto.last() == self.entries@[i - 1]);
            }
            i -= 1;
            if same_text(self.entries[i].0.as_str(), root) {
                return Some(clone_paths(&self.entries[i].1));
            }
        }
        proof {
            assert(self.entries@.subrange(0, 0).len() == 0);
        }
        None
    }

    /// Remembers that the projects below `root` are `projects`.
    pub fn remember(&mut self, root: &str, projects: Vec<String>)
        ensures
            final(self)@ == old(self)@.insert(root@, projects.deep_view()),
    {
        let ghost before = self.entries@;
        let key = String::from_str(root);
        self.entries.push((key, projects));
        proof {
            assert(self.entries@.drop_last() == before);
        }
    }

    /// Project discovery below `root`, at most once per root: a root that
    /// was answered before gets the same answer again, whatever `candidates`
    /// holds, and the cache stays as it is; a new root is answered from its
    /// walk and remembered.
    pub fn discover(&mut self, root: &str, candidates: &Vec<ProjectMarkers>) -> (projects: Vec<
        String,
    >)
        ensures
            old(self)@.contains_key(root@) ==> projects.deep_view() == old(self)@[root@]
                && final(self)@ == old(self)@,
            !old(self)@.contains_key(root@) ==> lists_gradle_projects(
                projects.deep_view(),
                candidates@,
            ) && final(self)@ == old(self)@.insert(root@, projects.deep_view()),
    {
        match self.lookup(root) {
            Some(projects) => projects,
            None => {
                let projects = find_all_gradle_projects(candidates);
                self.remember(root, clone_paths(&projects));
                projects
            },
        }
    }
}

/// The last component of `path` is `name`.
pub open spec fn is_named(path: Seq<char>, name: Seq<char>) -> bool {
    path == name || (seq!['/'] + name).is_suffix_of(path)
}

/// What a walk found that is a directory literally named `build`.
pub open spec fn build_output_dir(entry: DiskEntry) -> Option<Seq<char>> {
    if entry.kind == EntryKind::Directory && is_named(entry.path@, "build"@) {
        Some(entry.path@)
    } else {
        None
    }
}

/// The directories named `build` in one walk, in the order of the walk.
pub open spec fn build_output_dirs(entries: Seq<DiskEntry>) -> Seq<Seq<char>> {
    entries.filter_map(|entry: DiskEntry| build_output_dir(entry))
}

/// The directories named `build` below one project.
pub fn find_build_output_dirs(entries: &Vec<DiskEntry>) -> (dirs: Vec<String>)
    ensures
        dirs.deep_view() == build_output_dirs(entries@),
{
    let mut dirs: Vec<String> = Vec::new();
    let mut i: usize = 0;
    while i < entries.len()
        invariant
            i <= entries.len(),
            dirs.deep_view() == build_output_dirs(entries@.take(i as int)),
        decreases entries.len() - i,
    {
        let entry = &entries[i];
        let ghost before = dirs.deep_view();
        proof {
            assert(entries@.take(i + 1).drop_last() == entries@.take(i as int));
            reveal_strlit("/build");
            reveal_strlit("build");
            assert("/build"@ == seq!['/'] + "build"@);
        }
        let is_directory = match entry.kind {
            EntryKind::Directory => true,
            _ => false,
        };
        if is_directory && (same_text(entry.path.as_str(), "build") || ends_with(
            entry.path.as_str(),
            "/build",
        )) {
            dirs.push(entry.path.clone());
            proof {
                assert(dirs.deep_view() == before.push(entry.path@));
                assert(before.push(entry.path@) == before + seq![entry.path@]);
            }
        }
        i += 1;
    }
    proof {
        assert(entries@.take(entries.len() as int) == entries@);
    }
    dirs
}

/// The directories named `build` below all of `projects`, project after
/// project.
pub open spec fn build_output_folders(projects: Seq<ProjectListing>) -> Seq<Seq<char>>
    decreases projects.len(),
{
    if projects.len() == 0 {
        Seq::empty()
    } else {
        build_output_folders(projects.drop_last()) + build_output_dirs(projects.last().entries@)
    }
}

/// Every build output directory of every project.
pub fn all_build_output_folders(projects: &Vec<ProjectListing>) -> (dirs: Vec<String>)
    ensures
        dirs.deep_view() == build_output_folders(projects@),
{
    let mut dirs: Vec<String> = Vec::new();
    let mut i: usize = 0;
    while i < projects.len()
        invariant
            i <= projects.len(),
            dirs.deep_view() == build_output_folders(projects@.take(i as int)),
        decreases projects.len() - i,
    {
        let ghost before = dirs.deep_view();
        let mut found = find_build_output_dirs(&projects[i].entries);
        let ghost added = found.deep_view();
        proof {
            assert(projects@.take(i + 1).drop_last() == projects@.take(i as int));
        }
        dirs.append(&mut found);
        proof {
            assert(dirs.deep_view() == before + added);
        }
        i += 1;
    }
    proof {
        assert(projects@.take(projects.len() as int) == projects@);
    }
    dirs
}

/// The directory `target` directly below the root of each project.
pub open spec fn metadata_files(projects: Seq<ProjectListing>, target: Seq<char>) -> Seq<
    Seq<char>,
> {
    Seq::new(projects.len(), |i: int| joined(projects[i].root@, target))
}

/// The metadata directory `target` of every project.
pub fn all_metadata_files(projects: &Vec<ProjectListing>, target: &str) -> (dirs: Vec<String>)
    ensures
        dirs.deep_view() == metadata_files(projects@, target@),
{
    let mut dirs: Vec<String> = Vec::new();
    let mut i: usize = 0;
    while i < projects.len()
        invariant
            i <= projects.len(),
            dirs@.len() == i,
            forall|k: int| 0 <= k < i ==> dirs@[k]@ == joined(projects@[k].root@, target@),
        decreases projects.len() - i,
    {
        dirs.push(join(projects[i].root.as_str(), target));
        i += 1;
    }
    proof {
        assert(dirs.deep_view() =~= metadata_files(projects@, target@));
    }
    dirs
}

/// The directories that a category of disk usage stands for: the one
/// directory of a machine-wide cache below the user's home (none for the
/// residual category), every directory named `build` below the projects,
/// or the metadata directory of each project.
pub open spec fn associated_filepaths(
    user_home: Seq<char>,
    cached: DiskCached,
    projects: Seq<ProjectListing>,
) -> Seq<Seq<char>> {
    match cached {
        DiskCached::Shared(user_level) => match user_level.spec_path_relative_to_user_home() {
            None => Seq::empty(),
            Some(path) => seq![joined(user_home, path)],
        },
        DiskCached::Standalone(ProjectLevelDiskCache::BuildOutput) => build_output_folders(
            projects,
        ),
        DiskCached::Standalone(ProjectLevelDiskCache::GradleMetadata) => metadata_files(
            projects,
            ".gradle"@,
        ),
        DiskCached::Standalone(ProjectLevelDiskCache::IdeaMetadata) => metadata_files(
            projects,
            ".idea"@,
        ),
    }
}

/// The paths to remove for one category of disk usage. Without projects a
/// project category has no path.
pub fn find_associated_filepaths(
    user_home: &str,
    cached: DiskCached,
    projects: &Vec<ProjectListing>,
) -> (paths: Vec<String>)
    ensures
        paths.deep_view() == associated_filepaths(user_home@, cached, projects@),
        cached is Standalone && projects@.len() == 0 ==> paths@.len() == 0,
{
    match cached {
        DiskCached::Standalone(project_level) => {
            if projects.len() == 0 {
                let none: Vec<String> = Vec::new();
                proof {
                    assert(none.deep_view() =~= associated_filepaths(
                        user_home@,
                        cached,
                        projects@,
                    ));
                }
                return none;
            }
            match project_level {
                ProjectLevelDiskCache::BuildOutput => all_build_output_folders(projects),
                ProjectLevelDiskCache::GradleMetadata => all_metadata_files(projects, ".gradle"),
                ProjectLevelDiskCache::IdeaMetadata => all_metadata_files(projects, ".idea"),
            }
        },
        DiskCached::Shared(user_level) => match user_level.path_relative_to_user_home() {
            None => {
                let none: Vec<String> = Vec::new();
                proof {
                    assert(none.deep_view() =~= Seq::<Seq<char>>::empty());
                }
                none
            },
            Some(path) => {
                let mut paths: Vec<String> = Vec::new();
                paths.push(join(user_home, path.as_str()));
                proof {
                    assert(paths.deep_view() =~= seq![joined(user_home@, path@)]);
                }
                paths
            },
        },
    }
}

} // verus!
