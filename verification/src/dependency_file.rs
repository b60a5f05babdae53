//! Files that define dependencies.
use vstd::prelude::*;

use crate::dependencies::Dependency;
use crate::pipfile::PipfileError;
use crate::{dependencies, json, pipfile};

verus! {

/// The kinds of files that define dependencies.
#[derive(Debug, Clone, Copy, PartialEq, Eq, Structural)]
pub enum DependencyFileType {
    PipfileLock,
}

/// The kinds of files that define dependencies, in the order in which they are
/// looked for.
pub open spec fn file_types() -> Seq<DependencyFileType> {
    seq![DependencyFileType::PipfileLock]
}

/// Every kind of file is looked for.
pub proof fn every_file_type_is_looked_for(file_type: DependencyFileType)
    ensures
        file_types().contains(file_type),
{
    assert(file_types()[0] == file_type);
}

impl DependencyFileType {
    /// The name of a file of this kind.
    pub open spec fn name(self) -> Seq<char> {
        match self {
            DependencyFileType::PipfileLock => "Pipfile.lock"@,
        }
    }

    /// The name of a file of this kind.
    pub fn file_name(&self) -> (result: String)
        ensures
            result@ == self.name(),
    {
        match self {
            DependencyFileType::PipfileLock => "Pipfile.lock".to_owned(),
        }
    }

    /// The kinds of files that define dependencies, in the order in which they are
    /// looked for.
    pub fn all() -> (result: Vec<DependencyFileType>)
        ensures
            result@ == file_types(),
    {
        let result = vec![DependencyFileType::PipfileLock];
        assert(result@ == file_types());
        result
    }
}

/// A file that defines dependencies, and where it was found.
#[derive(Debug, Clone, Copy, PartialEq, Eq, Structural)]
pub struct DependencyFile {
    pub file_type: DependencyFileType,
    /// How many directories above the working directory the file is.
    pub level: usize,
}

/// The kinds of files that are present, in their order. `present` tells of each
/// kind whether a file of that kind is there.
pub open spec fn present_files(present: Seq<bool>, level: usize) -> Seq<DependencyFile>
    decreases present.len(),
{
    if present.len() == 0 {
        Seq::empty()
    } else {
        let earlier = present_files(present.drop_last(), level);
        if present.last() {
            earlier.push(
                DependencyFile { file_type: file_types()[present.len() - 1], level },
            )
        } else {
            earlier
        }
    }
}

/// The search for files that define dependencies: it starts in the working
/// directory and goes up to the root directory.
#[derive(Debug, Clone, Copy, PartialEq, Eq, Structural)]
pub struct DependencyFileSearch {
    /// How many directories there are above the working directory.
    pub above: usize,
    /// How many directories above the working directory the search is.
    pub level: usize,
}

/// What the search does after it looked into a directory.
#[derive(Debug, PartialEq, Eq)]
pub enum SearchStep {
    /// It ends with the files of this directory.
    Found(Vec<DependencyFile>),
    /// It looks into the directory above.
    GoUp(DependencyFileSearch),
    /// It ends with nothing: this is the root directory.
    NotFound,
}

/// The view of a [`SearchStep`].
pub enum StepView {
    Found(Seq<DependencyFile>),
    GoUp(DependencyFileSearch),
    NotFound,
}

impl View for SearchStep {
    type V = StepView;

    open spec fn view(&self) -> StepView {
        match self {
            SearchStep::Found(files) => StepView::Found(files@),
            SearchStep::GoUp(search) => StepView::GoUp(*search),
            SearchStep::NotFound => StepView::NotFound,
        }
    }
}

impl DependencyFileSearch {
    /// What the search does next, where `present` tells of each kind of file whether
    /// a file of that kind is in the directory.
    pub open spec fn step(self, present: Seq<bool>) -> StepView {
        if present.contains(true) {
            StepView::Found(present_files(present, self.level))
        } else if self.level >= self.above {
            StepView::NotFound
        } else {
            StepView::GoUp(
                DependencyFileSearch { above: self.above, level: (self.level + 1) as usize },
            )
        }
    }

    /// A search that starts in a working directory with this many directories above
    /// it.
    pub fn new(above: usize) -> (result: DependencyFileSearch)
        ensures
            result == (DependencyFileSearch { above, level: 0 }),
    {
        DependencyFileSearch { above, level: 0 }
    }

    /// Decide what to do next, where `present` tells of each kind of file, in the
    /// order of the kinds, whether a file of that kind is in the directory.
    pub fn look(&self, present: &Vec<bool>) -> (result: SearchStep)
        requires
            present@.len() == file_types().len(),
        ensures
            result@ == self.step(present@),
    {
        let types = DependencyFileType::all();
        let mut files: Vec<DependencyFile> = Vec::new();
        let mut found = false;
        for i in 0..present.len()
            invariant
                types@ == file_types(),
                present@.len() == types@.len(),
                files@ == present_files(present@.take(i as int), self.level),
                found == present@.take(i as int).contains(true),
        {
            assert(present@.take(i + 1).drop_last() == present@.take(i as int));
            assert(present@.take(i + 1) == present@.take(i as int).push(present@[i as int]));
            if present[i] {
                files.push(DependencyFile { file_type: types[i], level: self.level });
                found = true;
                assert(present@.take(i + 1)[i as int]);
            } else if found {
                let ghost k = present@.take(i as int).index_of(true);
                assert(present@.take(i + 1)[k]);
            }
        }
        assert(present@.take(present@.len() as int) == present@);
        if found {
            SearchStep::Found(files)
        } else if self.level >= self.above {
            SearchStep::NotFound
        } else {
            SearchStep::GoUp(DependencyFileSearch { above: self.above, level: self.level + 1 })
        }
    }
}

/// The result of a search, where `present` tells what is in the directory of each
/// level.
pub open spec fn search_result(
    search: DependencyFileSearch,
    present: spec_fn(usize) -> Seq<bool>,
) -> Option<Seq<DependencyFile>>
    decreases search.above - search.level,
{
    match search.step(present(search.level)) {
        StepView::Found(files) => Some(files),
        StepView::NotFound => None,
        StepView::GoUp(next) => if search.level < search.above {
            search_result(next, present)
        } else {
            None
        },
    }
}

/// A search ends with the files of the nearest directory that holds any, and with
/// nothing only where no directory up to the root holds any.
pub proof fn nearest_directory_is_found(
    search: DependencyFileSearch,
    present: spec_fn(usize) -> Seq<bool>,
)
    requires
        search.level <= search.above,
    ensures
        match search_result(search, present) {
            Some(files) => exists|level: usize|
                search.level <= level <= search.above && (#[trigger] present(level)).contains(true)
                    && files == present_files(present(level), level) && forall|nearer: usize|
                    search.level <= nearer < level ==> !(#[trigger] present(nearer)).contains(true),
            None => forall|level: usize|
                search.level <= level <= search.above ==> !(#[trigger] present(level)).contains(
                    true,
                ),
        },
    decreases search.above - search.level,
{
    if !present(search.level).contains(true) && search.level < search.above {
        let next = DependencyFileSearch {
            above: search.above,
            level: (search.level + 1) as usize,
        };
        nearest_directory_is_found(next, present);
        if search_result(next, present) is Some {
            let files = search_result(next, present)->0;
            let level = choose|level: usize|
                next.level <= level <= search.above && (#[trigger] present(level)).contains(true)
                    && files == present_files(present(level), level) && forall|nearer: usize|
                    next.level <= nearer < level ==> !(#[trigger] present(nearer)).contains(true);
            assert forall|nearer: usize| search.level <= nearer < level implies !(
            #[trigger] present(nearer)).contains(true) by {
                if nearer > search.level {
                    assert(next.level <= nearer);
                }
            }
            assert(present(level).contains(true));
        }
    }
}

/// The dependencies that a file defines.
#[derive(Debug, PartialEq, Eq)]
pub struct FileDefinedDependencies {
    pub file: DependencyFile,
    /// The host name of the registry that owns the dependencies.
    pub registry_host_name: String,
    pub dependencies: Vec<Dependency>,
}

/// The view of [`FileDefinedDependencies`].
pub struct FileDependenciesView {
    pub file: DependencyFile,
    pub registry_host_name: Seq<char>,
    pub dependencies: Seq<dependencies::DependencyView>,
}

impl View for FileDefinedDependencies {
    type V = FileDependenciesView;

    open spec fn view(&self) -> FileDependenciesView {
        FileDependenciesView {
            file: self.file,
            registry_host_name: self.registry_host_name@,
            dependencies: dependencies::dependency_views(self.dependencies@),
        }
    }
}

/// The dependencies that a file defines, where `read` is what its text says as JSON.
pub open spec fn file_dependencies(
    file: DependencyFile,
    read: Result<json::JsonTree, serde_json::Error>,
) -> Result<FileDependenciesView, pipfile::PipfileFault> {
    match pipfile::text_dependencies(read) {
        Ok(dependencies) => Ok(
            FileDependenciesView { file, registry_host_name: "pypi.org"@, dependencies },
        ),
        Err(fault) => Err(fault),
    }
}

/// The dependencies that a file with the given text defines.
pub fn file_defined_dependencies(file: DependencyFile, text: &str) -> (result: Result<
    FileDefinedDependencies,
    PipfileError,
>)
    ensures
        match result {
            Ok(defined) => file_dependencies(file, json::read_text(text@)) == Ok::<
                _,
                pipfile::PipfileFault,
            >(defined@),
            Err(error) => file_dependencies(file, json::read_text(text@)) == Err::<
                FileDependenciesView,
                _,
            >(error@),
        },
{
    let (dependencies, registry_host_name) = match file.file_type {
        DependencyFileType::PipfileLock => match pipfile::get_dependencies(text) {
            Ok(dependencies) => (dependencies, pipfile::get_registry_host_name()),
            Err(error) => {
                return Err(error);
            },
        },
    };
    Ok(FileDefinedDependencies { file, registry_host_name, dependencies })
}

/// A file that was found, with its text where it was read.
#[derive(Debug, PartialEq, Eq)]
pub struct FoundFile {
    pub file: DependencyFile,
    pub text: Option<String>,
}

/// A file, and what its text says as JSON where it was read.
pub struct ReadFile {
    pub file: DependencyFile,
    pub read: Option<Result<json::JsonTree, serde_json::Error>>,
}

/// A file that was found, with what its text says.
pub open spec fn read_file(found: FoundFile) -> ReadFile {
    ReadFile {
        file: found.file,
        read: match found.text {
            Some(text) => Some(json::read_text(text@)),
            None => None,
        },
    }
}

/// Files that were found, with what their texts say.
pub open spec fn read_files(found: Seq<FoundFile>) -> Seq<ReadFile> {
    Seq::new(found.len(), |i: int| read_file(found[i]))
}

/// The outcome of a search, with what the texts of the files say.
pub open spec fn read_outcome(found: Option<Vec<FoundFile>>) -> Option<Seq<ReadFile>> {
    match found {
        Some(found) => Some(read_files(found@)),
        None => None,
    }
}

/// What a list of dependencies of files stands for.
pub open spec fn defined_views(defined: Seq<FileDefinedDependencies>) -> Seq<FileDependenciesView> {
    Seq::new(defined.len(), |i: int| defined[i]@)
}

/// Why files do not give dependencies.
#[derive(Debug)]
pub enum DependencyFileError {
    /// The text of a file was not read.
    NotRead { file: DependencyFile },
    /// A Pipfile.lock does not give dependencies.
    Pipfile(PipfileError),
}

/// The view of a [`DependencyFileError`].
pub enum DependencyFileFault {
    NotRead(DependencyFile),
    Pipfile(pipfile::PipfileFault),
}

impl View for DependencyFileError {
    type V = DependencyFileFault;

    open spec fn view(&self) -> DependencyFileFault {
        match self {
            DependencyFileError::NotRead { file } => DependencyFileFault::NotRead(*file),
            DependencyFileError::Pipfile(error) => DependencyFileFault::Pipfile(error@),
        }
    }
}

/// The dependencies that a file defines.
pub open spec fn found_dependencies(found: ReadFile) -> Result<
    FileDependenciesView,
    DependencyFileFault,
> {
    match found.read {
        None => Err(DependencyFileFault::NotRead(found.file)),
        Some(read) => match file_dependencies(found.file, read) {
            Ok(defined) => Ok(defined),
            Err(fault) => Err(DependencyFileFault::Pipfile(fault)),
        },
    }
}

/// The dependencies that files define, one group for each file in the order of the
/// files, or why the first file that gives none does not.
pub open spec fn all_dependencies(found: Seq<ReadFile>) -> Result<
    Seq<FileDependenciesView>,
    DependencyFileFault,
>
    decreases found.len(),
{
    if found.len() == 0 {
        Ok(Seq::empty())
    } else {
        match all_dependencies(found.drop_last()) {
            Err(fault) => Err(fault),
            Ok(groups) => match found_dependencies(found.last()) {
                Ok(group) => Ok(groups.push(group)),
                Err(fault) => Err(fault),
            },
        }
    }
}

/// The dependencies that the outcome of a search defines. Where no file was found,
/// there are none.
pub open spec fn search_dependencies(found: Option<Seq<ReadFile>>) -> Result<
    Seq<FileDependenciesView>,
    DependencyFileFault,
> {
    match found {
        Some(found) => all_dependencies(found),
        None => Ok(Seq::empty()),
    }
}

proof fn first_fault_stays(found: Seq<ReadFile>, i: int)
    requires
        0 <= i <= found.len(),
        all_dependencies(found.take(i)) is Err,
    ensures
        all_dependencies(found) == all_dependencies(found.take(i)),
    decreases found.len(),
{
    if i == found.len() {
        assert(found.take(i) == found);
    } else {
        assert(found.drop_last().take(i) == found.take(i));
        first_fault_stays(found.drop_last(), i);
    }
}

fn group_of(found: &FoundFile) -> (result: Result<FileDefinedDependencies, DependencyFileError>)
    ensures
        match result {
            Ok(group) => found_dependencies(read_file(*found)) == Ok::<_, DependencyFileFault>(
                group@,
            ),
            Err(error) => found_dependencies(read_file(*found)) == Err::<FileDependenciesView, _>(
                error@,
            ),
        },
{
    match &found.text {
        Some(text) => match file_defined_dependencies(found.file, text.as_str()) {
            Ok(group) => Ok(group),
            Err(error) => Err(DependencyFileError::Pipfile(error)),
        },
        None => Err(DependencyFileError::NotRead { file: found.file }),
    }
}

/// The dependencies that the outcome of a search defines.
pub fn all_file_defined_dependencies(found: &Option<Vec<FoundFile>>) -> (result: Result<
    Vec<FileDefinedDependencies>,
    DependencyFileError,
>)
    ensures
        match result {
            Ok(groups) => search_dependencies(read_outcome(*found)) == Ok::<_, DependencyFileFault>(
                defined_views(groups@),
            ),
            Err(error) => search_dependencies(read_outcome(*found)) == Err::<
                Seq<FileDependenciesView>,
                _,
            >(error@),
        },
{
    let mut groups: Vec<FileDefinedDependencies> = Vec::new();
    assert(defined_views(groups@) == Seq::<FileDependenciesView>::empty());
    let files = match found {
        Some(files) => files,
        None => {
            return Ok(groups);
        },
    };
    let ghost all = read_files(files@);
    for i in 0..files.len()
        invariant
            all == read_files(files@),
            read_outcome(*found) == Some(all),
            all_dependencies(all.take(i as int)) == Ok::<_, DependencyFileFault>(
                defined_views(groups@),
            ),
    {
        let ghost before = defined_views(groups@);
        assert(all.take(i + 1).drop_last() == all.take(i as int));
        assert(all[i as int] == read_file(files@[i as int]));
        match group_of(&files[i]) {
            Ok(group) => {
                groups.push(group);
                assert(defined_views(groups@) == before.push(group@));
            },
            Err(error) => {
                proof {
                    first_fault_stays(all, i + 1);
                }
                return Err(error);
            },
        }
    }
    assert(all.take(all.len() as int) == all);
    Ok(groups)
}

/// Where files give dependencies, there is one group for each file, in the order of
/// the files, and each group is what its file defines.
pub proof fn one_group_for_each_file(found: Seq<ReadFile>)
    requires
        all_dependencies(found) is Ok,
    ensures
        all_dependencies(found)->Ok_0.len() == found.len(),
        forall|i: int|
            0 <= i < found.len() ==> found_dependencies(found[i]) == Ok::<_, DependencyFileFault>(
                #[trigger] all_dependencies(found)->Ok_0[i],
            ),
        forall|i: int|
            0 <= i < found.len() ==> (#[trigger] all_dependencies(found)->Ok_0[i]).file
                == found[i].file,
    decreases found.len(),
{
    if found.len() > 0 {
        one_group_for_each_file(found.drop_last());
        let groups = all_dependencies(found)->Ok_0;
        let earlier = all_dependencies(found.drop_last())->Ok_0;
        assert forall|i: int| 0 <= i < found.len() implies found_dependencies(found[i]) == Ok::<
            _,
            DependencyFileFault,
        >(#[trigger] groups[i]) && groups[i].file == found[i].file by {
            if i < found.len() - 1 {
                assert(groups[i] == earlier[i]);
                assert(found.drop_last()[i] == found[i]);
            }
        }
    }
}

/// One file that gives no dependencies makes the whole result an error: that of the
/// first such file.
pub proof fn one_bad_file_is_an_error(found: Seq<ReadFile>, i: int)
    requires
        0 <= i < found.len(),
        found_dependencies(found[i]) is Err,
        forall|k: int| 0 <= k < i ==> found_dependencies(#[trigger] found[k]) is Ok,
    ensures
        all_dependencies(found) is Err,
        all_dependencies(found)->Err_0 == found_dependencies(found[i])->Err_0,
    decreases found.len(),
{
    if i < found.len() - 1 {
        assert(found.drop_last()[i] == found[i]);
        assert forall|k: int| 0 <= k < i implies found_dependencies(
            #[trigger] found.drop_last()[k],
        ) is Ok by {
            assert(found.drop_last()[k] == found[k]);
        }
        one_bad_file_is_an_error(found.drop_last(), i);
    } else {
        good_files_are_no_error(found.drop_last());
    }
}

/// Files that all give dependencies make no error.
pub proof fn good_files_are_no_error(found: Seq<ReadFile>)
    requires
        forall|k: int| 0 <= k < found.len() ==> found_dependencies(#[trigger] found[k]) is Ok,
    ensures
        all_dependencies(found) is Ok,
    decreases found.len(),
{
    if found.len() > 0 {
        assert forall|k: int| 0 <= k < found.len() - 1 implies found_dependencies(
            #[trigger] found.drop_last()[k],
        ) is Ok by {
            assert(found.drop_last()[k] == found[k]);
        }
        good_files_are_no_error(found.drop_last());
        assert(found_dependencies(found[found.len() - 1]) is Ok);
    }
}

/// The one kind of file that is looked for is `Pipfile.lock`.
pub proof fn lock_files_are_looked_for()
    ensures
        file_types().len() == 1,
        file_types()[0] == DependencyFileType::PipfileLock,
        DependencyFileType::PipfileLock.name() == "Pipfile.lock"@,
{
}

/// In a directory with a lock file the search ends with that file at its level. In one
/// without, it goes on one directory further up, and ends with nothing at the root.
pub proof fn searches_look_for_lock_files(search: DependencyFileSearch)
    ensures
        search.step(seq![true]) is Found,
        search.step(seq![true])->Found_0.len() == 1,
        search.step(seq![true])->Found_0[0].file_type == DependencyFileType::PipfileLock,
        search.step(seq![true])->Found_0[0].level == search.level,
        search.level < search.above ==> search.step(seq![false]) is GoUp && search.step(
            seq![false],
        )->GoUp_0.above == search.above && search.step(seq![false])->GoUp_0.level == search.level
            + 1,
        search.level >= search.above ==> search.step(seq![false]) is NotFound,
{
    reveal_with_fuel(present_files, 3);
    let here = seq![true];
    assert(here[0]);
    assert(here.drop_last() == Seq::<bool>::empty());
    assert(!seq![false].contains(true));
}

/// What is found with a search stands for the files in their order, each with what its
/// text says.
pub proof fn found_files_stand_for_their_texts(found: Vec<FoundFile>)
    ensures
        read_outcome(None) is None,
        read_outcome(Some(found)) is Some,
        read_outcome(Some(found))->0.len() == found@.len(),
        forall|i: int|
            0 <= i < found@.len() ==> (#[trigger] read_outcome(Some(found))->0[i]).file
                == found@[i].file && match found@[i].text {
                Some(text) => read_outcome(Some(found))->0[i].read == Some(json::read_text(text@)),
                None => read_outcome(Some(found))->0[i].read is None,
            },
{
}

/// The dependencies of a file are those of its text, from the one registry, together
/// with the file. A file that was not read, or whose text is faulty, has none.
pub proof fn files_define_what_their_texts_list(
    file: DependencyFile,
    lock: json::JsonTree,
    error: serde_json::Error,
)
    ensures
        match pipfile::lock_dependencies(lock) {
            Ok(dependencies) => file_dependencies(file, Ok(lock)) == Ok::<_, pipfile::PipfileFault>(
                FileDependenciesView { file, registry_host_name: "pypi.org"@, dependencies },
            ) && found_dependencies(ReadFile { file, read: Some(Ok(lock)) }) == Ok::<
                _,
                DependencyFileFault,
            >(FileDependenciesView { file, registry_host_name: "pypi.org"@, dependencies }),
            Err(fault) => file_dependencies(file, Ok(lock)) == Err::<FileDependenciesView, _>(fault)
                && found_dependencies(ReadFile { file, read: Some(Ok(lock)) }) == Err::<
                FileDependenciesView,
                _,
            >(DependencyFileFault::Pipfile(fault)),
        },
        file_dependencies(file, Err(error)) == Err::<FileDependenciesView, _>(
            pipfile::PipfileFault::NotJson(error),
        ),
        found_dependencies(ReadFile { file, read: Some(Err(error)) }) == Err::<
            FileDependenciesView,
            _,
        >(DependencyFileFault::Pipfile(pipfile::PipfileFault::NotJson(error))),
        found_dependencies(ReadFile { file, read: None }) == Err::<FileDependenciesView, _>(
            DependencyFileFault::NotRead(file),
        ),
{
}

/// A search without a file gives no group. One with files gives one group for each
/// file in their order where each file gives dependencies, and otherwise the fault of
/// the first file that gives none.
pub proof fn searches_give_a_group_for_each_file(found: Seq<ReadFile>)
    ensures
        search_dependencies(None) is Ok,
        search_dependencies(None)->Ok_0.len() == 0,
        (forall|k: int| 0 <= k < found.len() ==> found_dependencies(#[trigger] found[k]) is Ok)
            ==> search_dependencies(Some(found)) is Ok && search_dependencies(
            Some(found),
        )->Ok_0.len() == found.len() && forall|i: int|
            0 <= i < found.len() ==> #[trigger] search_dependencies(Some(found))->Ok_0[i]
                == found_dependencies(found[i])->Ok_0,
        forall|i: int|
            0 <= i < found.len() && found_dependencies(#[trigger] found[i]) is Err && (forall|
                k: int,
            |
                0 <= k < i ==> found_dependencies(#[trigger] found[k]) is Ok)
                ==> search_dependencies(Some(found)) is Err && search_dependencies(
                Some(found),
            )->Err_0 == found_dependencies(found[i])->Err_0,
{
    if forall|k: int| 0 <= k < found.len() ==> found_dependencies(#[trigger] found[k]) is Ok {
        good_files_are_no_error(found);
        one_group_for_each_file(found);
        assert forall|i: int| 0 <= i < found.len() implies #[trigger] search_dependencies(
            Some(found),
        )->Ok_0[i] == found_dependencies(found[i])->Ok_0 by {
            assert(found_dependencies(found[i]) == Ok::<_, DependencyFileFault>(
                all_dependencies(found)->Ok_0[i],
            ));
        }
    }
    assert forall|i: int|
        0 <= i < found.len() && found_dependencies(#[trigger] found[i]) is Err && (forall|k: int|
            0 <= k < i ==> found_dependencies(#[trigger] found[k]) is Ok) implies search_dependencies(
        Some(found),
    ) is Err && search_dependencies(Some(found))->Err_0 == found_dependencies(found[i])->Err_0 by {
        one_bad_file_is_an_error(found, i);
    }
}

/// What a list of groups stands for: its groups in their order, each with its own file,
/// registry and dependencies. An error stands for the fault of its own kind.
pub proof fn groups_stand_for_themselves(
    groups: Seq<FileDefinedDependencies>,
    error: DependencyFileError,
    step: SearchStep,
)
    ensures
        defined_views(groups).len() == groups.len(),
        forall|i: int|
            0 <= i < groups.len() ==> (#[trigger] defined_views(groups)[i]).file == groups[i].file
                && defined_views(groups)[i].registry_host_name == groups[i].registry_host_name@
                && defined_views(groups)[i].dependencies == dependencies::dependency_views(
                groups[i].dependencies@,
            ),
        match error {
            DependencyFileError::NotRead { file } => error@ == DependencyFileFault::NotRead(file),
            DependencyFileError::Pipfile(source) => error@ == DependencyFileFault::Pipfile(source@),
        },
        match step {
            SearchStep::Found(files) => step@ == StepView::Found(files@),
            SearchStep::GoUp(next) => step@ == StepView::GoUp(next),
            SearchStep::NotFound => step@ == StepView::NotFound,
        },
{
}

} // verus!
