//! What a caller can rely on, from what goes into a call to what comes out of it.
use vstd::prelude::*;

use crate::dependencies::{Dependency, PackageDependencies};
use crate::dependency_file::{
    DependencyFileError, DependencyFileSearch, FileDefinedDependencies, FoundFile, SearchStep,
};
use crate::extension::{
    FetchPurpose, MetadataStep, PyExtension, RegistryPackageMetadata,
};
use crate::json::Json;
use crate::pipfile::PipfileError;
use crate::registry::RegistryError;
use crate::report::{ReportError, ResolvedPackage};
use crate::resolver::{
    ArgumentError, AttemptFailure, Resolution, ResolverAction, ResolverArgSpec, ResolverCommand,
};
use crate::version::Release;
use crate::{
    dependencies, dependency_file, json, names, pipfile, registry, report, resolver, text, version,
};

verus! {

/// Whether a list of dependencies is made of the packages but for those of the given
/// name: each with its name and its version, of several packages of one name the last,
/// and in the order of their canonical names.
pub open spec fn are_the_other_packages(
    list: Seq<Dependency>,
    packages: Seq<report::PackageView>,
    package_name: Seq<char>,
) -> bool {
    &&& forall|i: int|
        0 <= i < list.len() ==> (#[trigger] list[i]).version is Ok && names::canonical(list[i].name@)
            != names::canonical(package_name) && exists|k: int|
            0 <= k < packages.len() && (#[trigger] packages[k]).name == list[i].name@
                && packages[k].version == list[i].version->Ok_0@ && report::is_last_of_name(
                packages,
                k,
            )
    &&& forall|k: int|
        0 <= k < packages.len() && names::canonical((#[trigger] packages[k]).name)
            != names::canonical(package_name) && report::is_last_of_name(packages, k) ==> exists|
            i: int,
        |
            0 <= i < list.len() && (#[trigger] list[i]).name@ == packages[k].name
                && list[i].version is Ok && list[i].version->Ok_0@ == packages[k].version
    &&& forall|i: int, j: int|
        0 <= i < j < list.len() ==> text::precedes(
            names::canonical((#[trigger] list[i]).name@),
            names::canonical((#[trigger] list[j]).name@),
        )
}

/// From the text of a report whose entries all write down packages come the version of
/// the package that was asked for, as pip selected it, and the other packages with the
/// versions that pip selected. The version that the caller gave counts where pip
/// selected no package of the name, and without either there is an error.
pub proof fn reports_give_what_pip_selected(
    text: &str,
    report_path: &str,
    package_name: &str,
    package_version: Option<&str>,
    result: Option<Result<Vec<PackageDependencies>, ReportError>>,
    report: json::JsonTree,
    entries: Seq<json::JsonTree>,
    packages: Seq<report::PackageView>,
)
    requires
        call_ensures(
            report::identify_package_dependencies,
            (Some(text), report_path, package_name, package_version),
            result,
        ),
        json::read_text(text@) == Ok::<_, serde_json::Error>(report),
        json::has_member(report, "install"@, json::JsonTree::Array(entries)),
        entries.len() == packages.len(),
        forall|i: int|
            0 <= i < entries.len() ==> report::writes_package(#[trigger] entries[i], packages[i]),
    ensures
        result is Some,
        match result->0 {
            Ok(found) => {
                &&& found@.len() == 1
                &&& found@[0].registry_host_name@ == "pypi.org"@
                &&& found@[0].package_version is Ok
                &&& forall|k: int| #[trigger]
                    report::is_target_at(packages, package_name@, k)
                        ==> found@[0].package_version->Ok_0@ == packages[k].version
                &&& (forall|k: int|
                    0 <= k < packages.len() ==> names::canonical((#[trigger] packages[k]).name)
                        != names::canonical(package_name@)) ==> package_version is Some
                    && found@[0].package_version->Ok_0@ == package_version->0@
                &&& are_the_other_packages(found@[0].dependencies@, packages, package_name@)
            },
            Err(error) => error@ is TargetMissing && package_version is None && forall|k: int|
                0 <= k < packages.len() ==> names::canonical((#[trigger] packages[k]).name)
                    != names::canonical(package_name@),
        },
{
    report::reports_list_all_entries(report, entries, packages);
    let fallback = text::optional_view(package_version);
    match result->0 {
        Ok(found) => {
            report::resolution_is_what_pip_selected(
                found@[0],
                report,
                report_path@,
                entries,
                packages,
                package_name@,
                fallback,
            );
        },
        Err(_) => {
            report::resolutions_fail_for_want_of_the_target(
                packages,
                package_name@,
                fallback,
                report::ReportFault::TargetMissing,
            );
        },
    }
}

/// A report that was not read, or that is not JSON, or that has no list of packages,
/// gives an error that says so.
pub proof fn unreadable_reports_are_errors(
    text: Option<&str>,
    report_path: &str,
    package_name: &str,
    package_version: Option<&str>,
    result: Option<Result<Vec<PackageDependencies>, ReportError>>,
    value: json::JsonTree,
)
    requires
        call_ensures(
            report::identify_package_dependencies,
            (text, report_path, package_name, package_version),
            result,
        ),
    ensures
        text is None ==> result is Some && result->0 is Err && result->0->Err_0@
            == report::ReportFault::NotRead(report_path@),
        text is Some && json::read_text(text->0@) is Err ==> result is Some && result->0 is Err
            && result->0->Err_0@ == report::ReportFault::NotJson(
            json::read_text(text->0@)->Err_0,
        ),
        text is Some && json::read_text(text->0@) is Ok && (json::lacks_member(
            json::read_text(text->0@)->Ok_0,
            "install"@,
        ) || (json::has_member(json::read_text(text->0@)->Ok_0, "install"@, value) && !(
        value is Array))) ==> result is Some && result->0 is Err && result->0->Err_0@
            == report::ReportFault::InstallSection,
{
    if text is Some && json::read_text(text->0@) is Ok {
        json::members_are_found(json::read_text(text->0@)->Ok_0, "install"@, value);
    }
}

/// The packages that are read from a report are those that its entries write down, one
/// for each entry and in their order.
pub proof fn reports_are_read_entry_by_entry(
    report: Json,
    result: Result<Vec<ResolvedPackage>, ReportError>,
    entries: Seq<json::JsonTree>,
    packages: Seq<report::PackageView>,
)
    requires
        call_ensures(report::resolved_packages_from_pip_report, (&report,), result),
        json::has_member(report@, "install"@, json::JsonTree::Array(entries)),
        entries.len() == packages.len(),
        forall|i: int|
            0 <= i < entries.len() ==> report::writes_package(#[trigger] entries[i], packages[i]),
    ensures
        result is Ok,
        result->Ok_0@.len() == packages.len(),
        forall|i: int|
            0 <= i < packages.len() ==> (#[trigger] result->Ok_0@[i]).name@ == packages[i].name
                && result->Ok_0@[i].version@ == packages[i].version && result->Ok_0@[i].requested
                == packages[i].requested,
{
    report::reports_list_all_entries(report@, entries, packages);
    let found = result->Ok_0@;
    assert forall|i: int| 0 <= i < packages.len() implies (#[trigger] found[i]).name@
        == packages[i].name && found[i].version@ == packages[i].version && found[i].requested
        == packages[i].requested by {
        assert(report::package_views(found)[i] == packages[i]);
    }
}

/// The package that is selected is the first requested one of the name, or else the
/// first one of the name, and none where there is no package of the name.
pub proof fn the_target_is_selected(
    packages: &[ResolvedPackage],
    package_name: &str,
    result: Option<&ResolvedPackage>,
    k: int,
)
    requires
        call_ensures(report::select_target_package, (packages, package_name), result),
    ensures
        report::is_target_at(report::package_views(packages@), package_name@, k) ==> result is Some
            && result->0.name@ == packages@[k].name@ && result->0.version@ == packages@[k].version@
            && result->0.requested == packages@[k].requested,
        (forall|i: int|
            0 <= i < packages@.len() ==> names::canonical((#[trigger] packages@[i]).name@)
                != names::canonical(package_name@)) ==> result is None,
{
    let views = report::package_views(packages@);
    report::the_first_of_the_name_is_the_target(views, package_name@, None, k);
    if forall|i: int|
        0 <= i < packages@.len() ==> names::canonical((#[trigger] packages@[i]).name@)
            != names::canonical(package_name@) {
        assert forall|i: int| 0 <= i < views.len() implies names::canonical(
            (#[trigger] views[i]).name,
        ) != names::canonical(package_name@) by {
            assert(views[i].name == packages@[i].name@);
        }
    }
}

/// The latest version of an entry is a key of its releases, with numbers that those of
/// no other key exceed. There is none exactly where no key is made of numbers with a dot
/// between each two.
pub proof fn the_latest_version_is_a_release(
    entry: Json,
    result: Result<Option<String>, RegistryError>,
    members: Seq<(Seq<char>, json::JsonTree)>,
    i: int,
)
    requires
        call_ensures(registry::get_latest_version, (&entry,), result),
        json::has_member(entry@, "releases"@, json::JsonTree::Object(members)),
        0 <= i < members.len(),
    ensures
        result is Ok,
        match result->Ok_0 {
            Some(latest) => {
                &&& exists|k: int| 0 <= k < members.len() && (#[trigger] members[k]).0 == latest@
                &&& version::numbers(latest@) is Some
                &&& version::numbers(members[i].0) is Some ==> !version::later(
                    version::numbers(members[i].0)->0,
                    version::numbers(latest@)->0,
                )
            },
            None => forall|parts: Seq<Seq<char>>|
                !(#[trigger] version::is_dotted(members[i].0, parts)),
        },
{
    registry::entries_name_their_releases(entry@, members, json::JsonTree::Null);
    let named = registry::named_versions(entry@)->0;
    assert(named[i] == members[i].0);
    match result->Ok_0 {
        Some(latest) => {
            version::nothing_named_is_later(latest@, named, i);
            let k = choose|k: int| 0 <= k < named.len() && #[trigger] named[k] == latest@;
            assert(members[k].0 == latest@);
        },
        None => {
            version::lists_without_dotted_numbers_name_no_version(named);
        },
    }
}

/// Among releases of three numbers the latest is the one with the greatest major
/// number, then the greatest minor number, then the greatest patch number.
pub proof fn the_latest_release_has_the_greatest_numbers(
    entry: Json,
    result: Result<Option<String>, RegistryError>,
    members: Seq<(Seq<char>, json::JsonTree)>,
    i: int,
    latest: Release,
    other: Release,
)
    requires
        call_ensures(registry::get_latest_version, (&entry,), result),
        json::has_member(entry@, "releases"@, json::JsonTree::Object(members)),
        0 <= i < members.len(),
        members[i].0 == text::decimal(other.major as nat) + "."@ + text::decimal(other.minor as nat)
            + "."@ + text::decimal(other.patch as nat),
        result is Ok && result->Ok_0 is Some ==> result->Ok_0->0@ == text::decimal(
            latest.major as nat,
        ) + "."@ + text::decimal(latest.minor as nat) + "."@ + text::decimal(latest.patch as nat),
    ensures
        result is Ok,
        result->Ok_0 is Some,
        other.major <= latest.major,
        other.major == latest.major ==> other.minor <= latest.minor,
        other.major == latest.major && other.minor == latest.minor ==> other.patch <= latest.patch,
{
    reveal_strlit(".");
    assert("."@ == seq!['.']);
    the_latest_version_is_a_release(entry, result, members, i);
    assert(members[i].0 == other.text());
    version::release_numbers(other);
    registry::entries_name_their_releases(entry@, members, json::JsonTree::Null);
    let named = registry::named_versions(entry@)->0;
    assert(named[i] == other.text());
    assert(named.contains(other.text()));
    assert(result->Ok_0->0@ == latest.text());
    version::latest_release_is_greatest(latest, other, named);
}

/// Where the releases are missing, there is an error that says so.
pub proof fn missing_releases_are_an_error(
    entry: Json,
    result: Result<Option<String>, RegistryError>,
    value: json::JsonTree,
)
    requires
        call_ensures(registry::get_latest_version, (&entry,), result),
        json::lacks_member(entry@, "releases"@) || (json::has_member(entry@, "releases"@, value)
            && !(value is Object)),
    ensures
        result is Err,
        result->Err_0@ is ReleasesMissing,
{
    registry::entries_name_their_releases(entry@, Seq::empty(), value);
}

/// The latest version of a list is one of its texts, and none of its versions is later.
pub proof fn the_latest_version_is_named(named: Vec<String>, result: Option<String>, i: int)
    requires
        call_ensures(version::latest_version, (&named,), result),
        0 <= i < named@.len(),
    ensures
        match result {
            Some(latest) => {
                &&& exists|k: int| 0 <= k < named@.len() && (#[trigger] named@[k])@ == latest@
                &&& version::numbers(latest@) is Some
                &&& version::numbers(named@[i]@) is Some ==> !version::later(
                    version::numbers(named@[i]@)->0,
                    version::numbers(latest@)->0,
                )
            },
            None => version::numbers(named@[i]@) is None,
        },
{
    let views = text::views(named@);
    assert(views[i] == named@[i]@);
    assert(views.contains(views[i]));
    if let Some(latest) = result {
        version::nothing_named_is_later(latest@, views, i);
        let k = choose|k: int| 0 <= k < views.len() && #[trigger] views[k] == latest@;
        assert(named@[k]@ == latest@);
    }
}

/// Of two releases one is later by its first greater number.
pub proof fn releases_are_compared_number_by_number(left: Release, right: Release, result: bool)
    requires
        call_ensures(Release::is_later_than, (&left, &right), result),
    ensures
        result <==> left.major > right.major || (left.major == right.major && left.minor
            > right.minor) || (left.major == right.major && left.minor == right.minor && left.patch
            > right.patch),
{
    version::releases_are_ordered_number_by_number(
        left.major as nat,
        left.minor as nat,
        left.patch as nat,
        right.major as nat,
        right.minor as nat,
        right.patch as nat,
    );
}

/// The source archive of a version is the first artifact for the Python version
/// `source`, wherever it stands among the artifacts, and what is given is the whole text
/// under its `url`, in normal form.
pub proof fn the_first_source_archive_is_given(
    entry: Json,
    package_version: &str,
    found: Result<String, RegistryError>,
    result: Result<String, RegistryError>,
    artifacts: Seq<json::JsonTree>,
    k: int,
    url: Seq<char>,
)
    requires
        call_ensures(registry::find_source_archive, (&entry, package_version), found),
        call_ensures(registry::get_archive_url, (&entry, package_version), result),
        registry::has_artifacts(entry@, package_version@, artifacts),
        0 <= k < artifacts.len(),
        forall|i: int| 0 <= i < k ==> registry::is_other_artifact(#[trigger] artifacts[i]),
        json::has_member(artifacts[k], "python_version"@, json::JsonTree::Text("source"@)),
        json::has_member(artifacts[k], "url"@, json::JsonTree::Text(url)),
    ensures
        found is Ok,
        found->Ok_0@ == url,
        match registry::parsed_url(url) {
            Ok(normal) => result is Ok && result->Ok_0@ == normal,
            Err(error) => result is Err && result->Err_0@ == registry::RegistryFault::InvalidUrl(
                error,
            ),
        },
{
    registry::first_source_archive_of_a_version_is_found(
        entry@,
        package_version@,
        artifacts,
        k,
        url,
    );
}

/// Where no artifact of a version is for the Python version `source`, or the version has
/// no artifact, or is not known, there is an error that says so.
pub proof fn missing_source_archives_are_errors(
    entry: Json,
    package_version: &str,
    result: Result<String, RegistryError>,
    artifacts: Seq<json::JsonTree>,
    releases: json::JsonTree,
)
    requires
        call_ensures(registry::get_archive_url, (&entry, package_version), result),
    ensures
        registry::has_artifacts(entry@, package_version@, artifacts) && artifacts.len() > 0 && (
        forall|i: int|
            0 <= i < artifacts.len() ==> registry::is_other_artifact(#[trigger] artifacts[i]))
            ==> result is Err && result->Err_0@ is NoSourceArchive,
        registry::has_artifacts(entry@, package_version@, artifacts) && artifacts.len() == 0
            ==> result is Err && result->Err_0@ == registry::RegistryFault::ReleaseEmpty(
            package_version@,
        ),
        json::has_member(entry@, "releases"@, releases) && json::lacks_member(
            releases,
            package_version@,
        ) ==> result is Err && result->Err_0@ == registry::RegistryFault::ReleaseNotFound(
            package_version@,
        ),
        json::lacks_member(entry@, "releases"@) ==> result is Err
            && result->Err_0@ is ReleasesMissing,
{
    if registry::has_artifacts(entry@, package_version@, artifacts) {
        if artifacts.len() == 0 {
            registry::versions_without_a_source_archive(entry@, package_version@, artifacts, 0);
        } else if forall|i: int|
            0 <= i < artifacts.len() ==> registry::is_other_artifact(#[trigger] artifacts[i]) {
            registry::versions_without_a_source_archive(
                entry@,
                package_version@,
                artifacts,
                artifacts.len() as int,
            );
        }
    }
    registry::unknown_versions_have_no_source_archive(
        entry@,
        package_version@,
        releases,
        json::JsonTree::Null,
    );
}

/// The entry of a package is asked for under its name, and its page stands under its
/// name and its version.
pub proof fn urls_are_made_of_name_and_version(
    python: PyExtension,
    package_name: &str,
    package_version: &str,
    entry_url: Result<String, RegistryError>,
    human_url: Result<String, RegistryError>,
)
    requires
        call_ensures(registry::registry_entry_url, (package_name,), entry_url),
        call_ensures(
            PyExtension::get_registry_human_url,
            (&python, package_name, package_version),
            human_url,
        ),
    ensures
        entry_url is Ok,
        entry_url->Ok_0@ == "https://pypi.org/pypi/"@ + registry::escaped(package_name@) + "/json"@,
        match registry::parsed_url(
            "https://pypi.org/pypi/"@ + registry::escaped(package_name@) + "/"@ + registry::escaped(
                package_version@,
            ) + "/"@,
        ) {
            Ok(url) => human_url is Ok && human_url->Ok_0@ == url,
            Err(error) => human_url is Err && human_url->Err_0@
                == registry::RegistryFault::InvalidUrl(error),
        },
{
}

/// Each dependency with a pin in a section of a lock file is given under its name, with
/// exactly the text behind `==` as its version.
pub proof fn pinned_versions_are_given(
    lock: Json,
    result: Result<Vec<Dependency>, PipfileError>,
    default: Seq<(Seq<char>, json::JsonTree)>,
    develop: Seq<(Seq<char>, json::JsonTree)>,
    i: int,
    pinned: Seq<char>,
)
    requires
        call_ensures(pipfile::dependencies_from_lock, (&lock,), result),
        json::has_member(lock@, "default"@, json::JsonTree::Object(default)),
        json::has_member(lock@, "develop"@, json::JsonTree::Object(develop)),
        0 <= i < default.len() + develop.len(),
        json::has_member(
            (default + develop)[i].1,
            "version"@,
            json::JsonTree::Text("=="@ + pinned),
        ),
    ensures
        result is Ok,
        exists|k: int|
            0 <= k < result->Ok_0@.len() && (#[trigger] result->Ok_0@[k]).name@ == (default
                + develop)[i].0 && result->Ok_0@[k].version is Ok
                && result->Ok_0@[k].version->Ok_0@ == pinned,
{
    pipfile::pinned_versions_are_listed(lock@, default, develop, i, pinned);
    let list = pipfile::lock_dependencies(lock@)->Ok_0;
    let found = result->Ok_0@;
    let k = choose|k: int|
        0 <= k < list.len() && (#[trigger] list[k]).name == (default + develop)[i].0
            && list[k].version == Ok::<_, dependencies::VersionFault>(pinned);
    assert(list[k] == found[k]@);
    assert(found[k].name@ == (default + develop)[i].0);
}

/// The dependencies of a lock file are those of its two sections, each once, the default
/// packages first.
pub proof fn locks_give_their_sections(
    lock: Json,
    result: Result<Vec<Dependency>, PipfileError>,
    default: Seq<(Seq<char>, json::JsonTree)>,
    develop: Seq<(Seq<char>, json::JsonTree)>,
    all: Seq<dependencies::DependencyView>,
)
    requires
        call_ensures(pipfile::dependencies_from_lock, (&lock,), result),
        json::has_member(lock@, "default"@, json::JsonTree::Object(default)),
        json::has_member(lock@, "develop"@, json::JsonTree::Object(develop)),
        all.len() == default.len() + develop.len(),
        forall|i: int|
            0 <= i < default.len() ==> pipfile::is_member_dependency(#[trigger] all[i], default[i]),
        forall|i: int|
            0 <= i < develop.len() ==> pipfile::is_member_dependency(
                all[default.len() + i],
                #[trigger] develop[i],
            ),
    ensures
        result is Ok,
        dependencies::dependency_views(result->Ok_0@).no_duplicates(),
        forall|dependency: dependencies::DependencyView| #[trigger]
            all.contains(dependency) <==> dependencies::dependency_views(
                result->Ok_0@,
            ).contains(dependency),
        all.no_duplicates() ==> dependencies::dependency_views(result->Ok_0@) == all,
{
    pipfile::locks_list_both_sections(lock@, default, develop, all);
    pipfile::without_repeats_keeps_each_once(all);
    if all.no_duplicates() {
        pipfile::without_repeats_changes_nothing_else(all);
    }
}

/// The text of a lock file gives what it says as JSON.
pub proof fn lock_texts_give_what_they_say(
    text: &str,
    lock: Json,
    from_text: Result<Vec<Dependency>, PipfileError>,
    from_lock: Result<Vec<Dependency>, PipfileError>,
)
    requires
        call_ensures(pipfile::get_dependencies, (text,), from_text),
        call_ensures(pipfile::dependencies_from_lock, (&lock,), from_lock),
    ensures
        json::read_text(text@) == Ok::<_, serde_json::Error>(lock@) ==> match (
            from_text,
            from_lock,
        ) {
            (Ok(left), Ok(right)) => dependencies::dependency_views(left@)
                == dependencies::dependency_views(right@),
            (Err(left), Err(right)) => left@ == right@,
            _ => false,
        },
        json::read_text(text@) matches Err(error) ==> from_text is Err && from_text->Err_0@
            == pipfile::PipfileFault::NotJson(error),
{
}

/// Files that were found give one group each, in their order, with the file, the
/// registry and what the file's text lists. No file gives no group. A file that was not
/// read, or whose text lists nothing, makes the whole an error. No argument makes a
/// difference.
pub proof fn files_give_a_group_each(
    python: PyExtension,
    found: Option<Vec<FoundFile>>,
    arguments: &[String],
    result: Result<Vec<FileDefinedDependencies>, DependencyFileError>,
    other_arguments: &[String],
    other: Result<Vec<FileDefinedDependencies>, DependencyFileError>,
    i: int,
)
    requires
        call_ensures(
            PyExtension::identify_file_defined_dependencies,
            (&python, &found, arguments),
            result,
        ),
        call_ensures(
            PyExtension::identify_file_defined_dependencies,
            (&python, &found, other_arguments),
            other,
        ),
    ensures
        found is None ==> result is Ok && result->Ok_0@.len() == 0,
        found is Some && result is Ok ==> result->Ok_0@.len() == found->0@.len(),
        found is Some && result is Ok && 0 <= i < found->0@.len() ==> {
            &&& result->Ok_0@[i].file == found->0@[i].file
            &&& result->Ok_0@[i].registry_host_name@ == "pypi.org"@
            &&& found->0@[i].text is Some
            &&& pipfile::text_dependencies(json::read_text(found->0@[i].text->0@)) == Ok::<
                _,
                pipfile::PipfileFault,
            >(dependencies::dependency_views(result->Ok_0@[i].dependencies@))
        },
        found is Some && 0 <= i < found->0@.len() && (found->0@[i].text is None
            || pipfile::text_dependencies(json::read_text(found->0@[i].text->0@)) is Err)
            ==> result is Err,
        found is Some && (forall|k: int|
            0 <= k < found->0@.len() ==> (#[trigger] found->0@[k]).text is Some
                && pipfile::text_dependencies(json::read_text(found->0@[k].text->0@)) is Ok)
            ==> result is Ok,
        match (result, other) {
            (Ok(left), Ok(right)) => dependency_file::defined_views(left@)
                == dependency_file::defined_views(right@),
            (Err(left), Err(right)) => left@ == right@,
            _ => false,
        },
{
    if found is None {
        assert(dependency_file::defined_views(result->Ok_0@).len() == 0);
    } else {
        let files = dependency_file::read_outcome(found)->0;
        dependency_file::found_files_stand_for_their_texts(found->0);
        if result is Ok {
            dependency_file::one_group_for_each_file(files);
            let groups = result->Ok_0@;
            dependency_file::groups_stand_for_themselves(
                groups,
                arbitrary(),
                SearchStep::NotFound,
            );
            if 0 <= i < files.len() {
                let all = dependency_file::all_dependencies(files)->Ok_0;
                assert(all[i] == groups[i]@);
                assert(dependency_file::found_dependencies(files[i]) == Ok::<
                    _,
                    dependency_file::DependencyFileFault,
                >(all[i]));
                assert(files[i].file == found->0@[i].file);
            }
        }
        if forall|k: int|
            0 <= k < found->0@.len() ==> (#[trigger] found->0@[k]).text is Some
                && pipfile::text_dependencies(json::read_text(found->0@[k].text->0@)) is Ok {
            assert forall|k: int| 0 <= k < files.len() implies dependency_file::found_dependencies(
                #[trigger] files[k],
            ) is Ok by {
                assert(files[k].file == found->0@[k].file);
            }
            dependency_file::good_files_are_no_error(files);
        }
    }
}

/// A search that finds a lock file in a directory ends with it. Otherwise it looks into
/// the directory above, and ends with nothing at the root.
pub proof fn searches_go_up_until_a_file_is_found(
    search: DependencyFileSearch,
    present: Vec<bool>,
    result: SearchStep,
)
    requires
        call_ensures(DependencyFileSearch::look, (&search, &present), result),
        present@.len() == 1,
    ensures
        present@[0] ==> result is Found && result->Found_0@.len() == 1
            && result->Found_0@[0].file_type == dependency_file::DependencyFileType::PipfileLock
            && result->Found_0@[0].level == search.level,
        !present@[0] && search.level < search.above ==> result is GoUp && result->GoUp_0.above
            == search.above && result->GoUp_0.level == search.level + 1,
        !present@[0] && search.level >= search.above ==> result is NotFound,
{
    dependency_file::searches_look_for_lock_files(search);
    assert(present@ == seq![present@[0]]);
}

/// Arguments that are accepted are handed on as they are, and one that is rejected is
/// named in the error.
pub proof fn accepted_arguments_are_handed_on(
    arguments: &[String],
    result: Result<Vec<String>, ArgumentError>,
)
    requires
        call_ensures(resolver::resolver_args_from_extension_args, (arguments,), result),
    ensures
        match resolver::first_fault(text::views(arguments@)) {
            None => result is Ok && result->Ok_0@ == arguments@,
            Some(fault) => result is Err && result->Err_0@ == fault,
        },
{
}

/// What an option expects is found for an argument as it stands.
pub proof fn options_are_recognised(argument: &str, result: Option<ResolverArgSpec>)
    requires
        call_ensures(resolver::resolver_arg_spec, (argument,), result),
    ensures
        result == resolver::argument_spec(argument@),
{
}

/// A resolution starts with the first way to run pip, with all arguments, and with the
/// requirement of the package in the version that was asked for.
pub proof fn resolutions_start_with_the_first_way(
    package_name: &str,
    package_version: Option<&str>,
    arguments: &[String],
    python: Option<String>,
    started: Result<Resolution, ArgumentError>,
    action: ResolverAction,
)
    requires
        call_ensures(Resolution::new, (package_name, package_version, arguments, python), started),
        started is Ok ==> call_ensures(Resolution::action, (&started->Ok_0,), action),
    ensures
        started is Err <==> resolver::first_fault(text::views(arguments@)) is Some,
        started is Err ==> resolver::first_fault(text::views(arguments@)) == Some(
            started->Err_0@,
        ),
        started is Ok ==> {
            &&& action is Run
            &&& action->Run_0.program@ == match python {
                Some(python) => python@,
                None => "python3"@,
            }
            &&& text::views(action->Run_0.leading_args@) == seq![
                "-m"@,
                "pip"@,
                "install"@,
                "--disable-pip-version-check"@,
                "--no-input"@,
                "--dry-run"@,
                "--ignore-installed"@,
                "--report"@,
            ]
            &&& text::views(action->Run_0.trailing_args@) == text::views(arguments@) + seq![
                match package_version {
                    Some(package_version) => package_name@ + seq!['=', '='] + package_version@,
                    None => package_name@,
                },
            ]
        },
{
    if started is Ok {
        let chosen = match python {
            Some(python) => Some(python@),
            None => None,
        };
        let none = Seq::<resolver::FailureView>::empty();
        resolver::every_way_is_tried(
            package_name@,
            text::optional_view(package_version),
            text::views(arguments@),
            chosen,
            none,
        );
        match package_version {
            Some(package_version) => {
                resolver::requirements_pin_the_version(package_name@, package_version@);
            },
            None => {},
        }
        assert(text::views(action->Run_0.leading_args@) == seq![
            "-m"@,
            "pip"@,
            "install"@,
            "--disable-pip-version-check"@,
            "--no-input"@,
            "--dry-run"@,
            "--ignore-installed"@,
            "--report"@,
        ]);
    }
}

/// What comes out of a resolution that gives up, of a failed attempt, of an output and
/// of a requirement is told in full.
pub proof fn messages_are_told_in_full(
    stdout: &[u8],
    stderr: &[u8],
    output: String,
    failure: AttemptFailure,
    command: ResolverCommand,
    message: String,
    package_name: &str,
    package_version: Option<&str>,
    requirement: String,
)
    requires
        call_ensures(resolver::command_output, (stdout, stderr), output),
        call_ensures(AttemptFailure::message, (&failure, &command), message),
        call_ensures(resolver::package_requirement, (package_name, package_version), requirement),
    ensures
        output@ == resolver::output_message(text::decoded(stdout@), text::decoded(stderr@)),
        match failure {
            AttemptFailure::Exited { stdout, stderr } => message@ == command@.display()
                + " failed:\n"@ + resolver::output_message(
                text::decoded(stdout@),
                text::decoded(stderr@),
            ),
            AttemptFailure::NotStarted { error } => message@ == command@.display()
                + " failed to start: "@ + error@,
        },
        match package_version {
            Some(package_version) => requirement@ == package_name@ + "=="@ + package_version@,
            None => requirement@ == package_name@,
        },
{
}

/// The metadata of a version of a package is that of its source archive and its page.
pub proof fn metadata_is_that_of_the_version(
    python: PyExtension,
    package_name: &str,
    package_version: &str,
    entry: Json,
    archive: Result<String, RegistryError>,
    page: Result<String, RegistryError>,
    result: Result<Vec<RegistryPackageMetadata>, RegistryError>,
)
    requires
        call_ensures(registry::get_archive_url, (&entry, package_version), archive),
        call_ensures(
            PyExtension::get_registry_human_url,
            (&python, package_name, package_version),
            page,
        ),
        call_ensures(
            PyExtension::registries_package_metadata,
            (&python, package_name, package_version, &entry),
            result,
        ),
    ensures
        match (archive, page) {
            (Ok(archive), Ok(page)) => {
                &&& result is Ok
                &&& result->Ok_0@.len() == 1
                &&& result->Ok_0@[0].registry_host_name@ == "pypi.org"@
                &&& result->Ok_0@[0].artifact_url@ == archive@
                &&& result->Ok_0@[0].human_url@ == page@
                &&& result->Ok_0@[0].is_primary
                &&& result->Ok_0@[0].package_version@ == package_version@
            },
            (Err(error), _) => result is Err && result->Err_0@ == error@,
            (Ok(_), Err(error)) => result is Err && result->Err_0@ == error@,
        },
{
    crate::extension::metadata_is_made_of_both_urls(package_name@, package_version@, entry@);
    if archive is Ok && page is Ok {
        let views = crate::extension::metadata_views(result->Ok_0@);
        assert(views.len() == 1);
        assert(views[0] == result->Ok_0@[0]@);
    }
}

/// The registry is asked for the entry of the package, for the metadata of the version
/// where one is given and else for the latest version. What it answers for the latest
/// version leads to a request for the metadata of exactly that version.
pub proof fn the_registry_is_asked_for_the_entry(
    python: PyExtension,
    package_name: &str,
    package_version: Option<&str>,
    start: Result<MetadataStep, RegistryError>,
    entry: Json,
    latest: Result<Option<String>, RegistryError>,
    next: Result<MetadataStep, RegistryError>,
)
    requires
        call_ensures(PyExtension::metadata_start, (&python, package_name, package_version), start),
        call_ensures(registry::get_latest_version, (&entry,), latest),
        call_ensures(
            PyExtension::metadata_step_on_entry,
            (&python, package_name, FetchPurpose::LatestVersion, &entry),
            next,
        ),
    ensures
        start is Ok,
        start->Ok_0 is Fetch,
        start->Ok_0->url@ == "https://pypi.org/pypi/"@ + registry::escaped(package_name@)
            + "/json"@,
        match package_version {
            Some(package_version) => start->Ok_0->purpose is Metadata
                && start->Ok_0->purpose->version@ == package_version@,
            None => start->Ok_0->purpose is LatestVersion,
        },
        match latest {
            Ok(Some(latest)) => next is Ok && next->Ok_0 is Fetch && next->Ok_0->url@
                == start->Ok_0->url@ && next->Ok_0->purpose is Metadata
                && next->Ok_0->purpose->version@ == latest@,
            Ok(None) => next is Err && next->Err_0@ is VersionMissing,
            Err(error) => next is Err && next->Err_0@ == error@,
        },
{
    if let Ok(Some(latest)) = latest {
        crate::extension::the_latest_version_is_looked_for(
            crate::extension::step_outcome(next),
            package_name@,
            entry@,
            latest@,
        );
    } else if let Ok(None) = latest {
        crate::extension::the_latest_version_is_looked_for(
            crate::extension::step_outcome(next),
            package_name@,
            entry@,
            Seq::empty(),
        );
    }
}

/// Two spellings of a package name have one canonical form where they differ in the case
/// of letters or in their separators, and a name in canonical form is its own.
pub proof fn spellings_have_one_canonical_form(
    name: &str,
    result: String,
    head: Seq<char>,
    tail: Seq<char>,
    other: &str,
    other_result: String,
)
    requires
        call_ensures(names::canonical_package_name, (name,), result),
        call_ensures(names::canonical_package_name, (other,), other_result),
    ensures
        names::is_canonical(name@) ==> result@ == name@,
        names::is_canonical(result@),
        name@ == head + "_"@ + tail && other@ == head + "-"@ + tail ==> result@ == other_result@,
        name@ == head + "."@ + tail && other@ == head + "-"@ + tail ==> result@ == other_result@,
        name@ == head + "--"@ + tail && other@ == head + "-"@ + tail ==> result@ == other_result@,
        forall|i: int|
            #![trigger "ABCDEFGHIJKLMNOPQRSTUVWXYZ"@[i]]
            0 <= i < 26 && name@ == head + seq!["ABCDEFGHIJKLMNOPQRSTUVWXYZ"@[i]] + tail && other@
                == head + seq!["abcdefghijklmnopqrstuvwxyz"@[i]] + tail ==> result@
                == other_result@,
{
    names::canonical_form(name@);
    if names::is_canonical(name@) {
        names::canonical_fixed_point(name@);
    }
    names::separators_count_as_one_hyphen(head, tail);
    assert forall|i: int|
        #![trigger "ABCDEFGHIJKLMNOPQRSTUVWXYZ"@[i]]
        0 <= i < 26 && name@ == head + seq!["ABCDEFGHIJKLMNOPQRSTUVWXYZ"@[i]] + tail && other@
            == head + seq!["abcdefghijklmnopqrstuvwxyz"@[i]] + tail implies result@
        == other_result@ by {
        names::upper_case_letters_are_lowered(head, i, tail);
    }
}

/// What the registry answers is gone on with as the entry that it says as JSON, and an
/// answer that is not JSON is quoted in the error.
pub proof fn answers_are_gone_on_with(
    python: PyExtension,
    package_name: &str,
    package_version: &str,
    body: &str,
    entry: Json,
    metadata: Result<Vec<RegistryPackageMetadata>, RegistryError>,
    purpose: FetchPurpose,
    result: Result<MetadataStep, RegistryError>,
)
    requires
        call_ensures(
            PyExtension::registries_package_metadata,
            (&python, package_name, package_version, &entry),
            metadata,
        ),
        call_ensures(PyExtension::metadata_step, (&python, package_name, purpose, body), result),
        purpose is Metadata,
        purpose->version@ == package_version@,
    ensures
        json::read_text(body@) == Ok::<_, serde_json::Error>(entry@) ==> match metadata {
            Ok(metadata) => result is Ok && result->Ok_0 is Done
                && crate::extension::metadata_views(result->Ok_0->Done_0@)
                == crate::extension::metadata_views(metadata@),
            Err(error) => result is Err && result->Err_0@ == error@,
        },
        json::read_text(body@) matches Err(error) ==> result is Err && result->Err_0@
            == registry::RegistryFault::NotJson(body@, error),
{
    crate::extension::answers_are_read_as_entries(
        crate::extension::step_outcome(result),
        package_name@,
        purpose@,
        body@,
        json::read_text(body@),
    );
    crate::extension::steps_stand_for_themselves(
        Seq::empty(),
        result->Ok_0,
        purpose,
        result->Err_0,
    );
    if json::read_text(body@) == Ok::<_, serde_json::Error>(entry@) {
        crate::extension::metadata_ends_the_search(
            crate::extension::step_outcome(result),
            package_name@,
            package_version@,
            entry@,
        );
    }
}

/// From a report whose entries all write down packages come the version of the package
/// that was asked for and the other packages, as pip selected them.
pub proof fn dependencies_are_those_of_the_report(
    report: Json,
    package_name: &str,
    fallback: Option<&str>,
    result: Result<PackageDependencies, ReportError>,
    entries: Seq<json::JsonTree>,
    packages: Seq<report::PackageView>,
)
    requires
        call_ensures(
            report::package_dependencies_from_pip_report,
            (&report, package_name, fallback),
            result,
        ),
        json::has_member(report@, "install"@, json::JsonTree::Array(entries)),
        entries.len() == packages.len(),
        forall|i: int|
            0 <= i < entries.len() ==> report::writes_package(#[trigger] entries[i], packages[i]),
    ensures
        match result {
            Ok(found) => {
                &&& found.registry_host_name@ == "pypi.org"@
                &&& found.package_version is Ok
                &&& forall|k: int| #[trigger]
                    report::is_target_at(packages, package_name@, k)
                        ==> found.package_version->Ok_0@ == packages[k].version
                &&& (forall|k: int|
                    0 <= k < packages.len() ==> names::canonical((#[trigger] packages[k]).name)
                        != names::canonical(package_name@)) ==> fallback is Some
                    && found.package_version->Ok_0@ == fallback->0@
                &&& are_the_other_packages(found.dependencies@, packages, package_name@)
            },
            Err(error) => error@ is TargetMissing && fallback is None && forall|k: int|
                0 <= k < packages.len() ==> names::canonical((#[trigger] packages[k]).name)
                    != names::canonical(package_name@),
        },
{
    report::reports_list_all_entries(report@, entries, packages);
    let given = text::optional_view(fallback);
    match result {
        Ok(found) => {
            report::resolution_is_what_pip_selected(
                found,
                report@,
                Seq::empty(),
                entries,
                packages,
                package_name@,
                given,
            );
        },
        Err(_) => {
            report::resolutions_fail_for_want_of_the_target(
                packages,
                package_name@,
                given,
                report::ReportFault::TargetMissing,
            );
        },
    }
}

/// A chosen Python executable is the only way to run pip. Otherwise there are three, in
/// their order.
pub proof fn pip_is_run_in_these_ways(python: Option<String>, result: Vec<ResolverCommand>)
    requires
        call_ensures(resolver::pip_resolver_commands, (python,), result),
    ensures
        match python {
            Some(python) => result@.len() == 1 && result@[0].program@ == python@ && text::views(
                result@[0].prefix_args@,
            ) == seq!["-m"@, "pip"@],
            None => {
                &&& result@.len() == 3
                &&& result@[0].program@ == "python3"@
                &&& text::views(result@[0].prefix_args@) == seq!["-m"@, "pip"@]
                &&& result@[1].program@ == "pip3"@
                &&& result@[1].prefix_args@.len() == 0
                &&& result@[2].program@ == "pip"@
                &&& result@[2].prefix_args@.len() == 0
            },
        },
{
    let views = resolver::command_views(result@);
    resolver::ways_to_run_pip(match python {
        Some(python) => python@,
        None => Seq::empty(),
    });
    assert(views.len() == result@.len());
    assert forall|i: int| 0 <= i < result@.len() implies #[trigger] views[i] == result@[i]@ by {}
    if python is None {
        assert(views[0] == result@[0]@ && views[1] == result@[1]@ && views[2] == result@[2]@);
        assert(text::views(result@[1].prefix_args@).len() == 0);
        assert(text::views(result@[2].prefix_args@).len() == 0);
    } else {
        assert(views[0] == result@[0]@);
    }
}

} // verus!
