//! pip's installation report.
use vstd::prelude::*;

use crate::dependencies::{Dependency, PackageDependencies};
use crate::json::Json;
use crate::text::Order;
use crate::{dependencies, json, names, pipfile, text};

verus! {

/// Why a report does not give the dependencies of a package.
#[derive(Debug)]
pub enum ReportError {
    /// The report was not read.
    NotRead { report_path: String },
    /// The report is not JSON.
    NotJson(serde_json::Error),
    /// The report has no list of packages to install.
    InstallSection,
    /// A package has no metadata.
    MetadataSection,
    /// The name of a package is not a text.
    PackageName,
    /// The version of a package is not a text.
    PackageVersion,
    /// Neither the report nor the caller knows the version of the package itself.
    TargetMissing,
}

/// The view of a [`ReportError`].
pub enum ReportFault {
    NotRead(Seq<char>),
    NotJson(serde_json::Error),
    InstallSection,
    MetadataSection,
    PackageName,
    PackageVersion,
    TargetMissing,
}

impl View for ReportError {
    type V = ReportFault;

    open spec fn view(&self) -> ReportFault {
        match self {
            ReportError::NotRead { report_path } => ReportFault::NotRead(report_path@),
            ReportError::NotJson(error) => ReportFault::NotJson(*error),
            ReportError::InstallSection => ReportFault::InstallSection,
            ReportError::MetadataSection => ReportFault::MetadataSection,
            ReportError::PackageName => ReportFault::PackageName,
            ReportError::PackageVersion => ReportFault::PackageVersion,
            ReportError::TargetMissing => ReportFault::TargetMissing,
        }
    }
}

impl ReportFault {
    /// The message of a report error.
    pub open spec fn message(self) -> Seq<char> {
        match self {
            ReportFault::NotRead(report_path) => "Failed to read pip resolver report: "@
                + report_path,
            ReportFault::NotJson(_) => "Failed to parse pip resolver report."@,
            ReportFault::InstallSection => "Failed to parse pip report install section."@,
            ReportFault::MetadataSection => "Failed to parse pip report metadata section."@,
            ReportFault::PackageName => "Failed to parse pip report package name."@,
            ReportFault::PackageVersion => "Failed to parse pip report package version."@,
            ReportFault::TargetMissing => "Failed to find target package in pip resolver report."@,
        }
    }
}

impl ReportError {
    /// The message of this error.
    pub fn message(&self) -> (result: String)
        ensures
            result@ == self@.message(),
    {
        match self {
            ReportError::NotRead { report_path } => {
                let mut message = "Failed to read pip resolver report: ".to_owned();
                message.append(report_path.as_str());
                message
            },
            ReportError::NotJson(_) => "Failed to parse pip resolver report.".to_owned(),
            ReportError::InstallSection => "Failed to parse pip report install section.".to_owned(),
            ReportError::MetadataSection => {
                "Failed to parse pip report metadata section.".to_owned()
            },
            ReportError::PackageName => "Failed to parse pip report package name.".to_owned(),
            ReportError::PackageVersion => "Failed to parse pip report package version.".to_owned(),
            ReportError::TargetMissing => {
                "Failed to find target package in pip resolver report.".to_owned()
            },
        }
    }
}

/// A package that pip selected.
#[derive(Debug, PartialEq, Eq)]
pub struct ResolvedPackage {
    pub name: String,
    pub version: String,
    /// Whether the package was asked for, rather than needed by another one.
    pub requested: bool,
}

/// The view of a [`ResolvedPackage`].
pub struct PackageView {
    pub name: Seq<char>,
    pub version: Seq<char>,
    pub requested: bool,
}

impl View for ResolvedPackage {
    type V = PackageView;

    open spec fn view(&self) -> PackageView {
        PackageView { name: self.name@, version: self.version@, requested: self.requested }
    }
}

/// What a list of packages stands for.
pub open spec fn package_views(packages: Seq<ResolvedPackage>) -> Seq<PackageView> {
    Seq::new(packages.len(), |i: int| packages[i]@)
}

/// What one entry of a report holds.
pub enum EntryContent {
    Package(PackageView),
    Fault(ReportFault),
    /// The metadata lacks the name or the version.
    Incomplete,
}

/// What one entry of the install section holds. Metadata is an object. It gives
/// the name first and the version then, each a text.
pub open spec fn entry_content(entry: json::JsonTree) -> EntryContent {
    match entry.member("metadata"@) {
        Some(metadata) => if !(metadata is Object) {
            EntryContent::Fault(ReportFault::MetadataSection)
        } else if metadata.member("name"@) is None {
            EntryContent::Incomplete
        } else if metadata.member_text("name"@) is None {
            EntryContent::Fault(ReportFault::PackageName)
        } else if metadata.member("version"@) is None {
            EntryContent::Incomplete
        } else if metadata.member_text("version"@) is None {
            EntryContent::Fault(ReportFault::PackageVersion)
        } else {
            EntryContent::Package(
                PackageView {
                    name: metadata.member_text("name"@)->0,
                    version: metadata.member_text("version"@)->0,
                    requested: entry.member("requested"@) == Some(json::JsonTree::Bool(true)),
                },
            )
        },
        None => EntryContent::Fault(ReportFault::MetadataSection),
    }
}

/// The view of a [`ReportReading`].
pub enum ReportContent {
    Packages(Seq<PackageView>),
    Fault(ReportFault),
    /// The first entry that is no package has metadata without a name or a version.
    Incomplete,
}

/// What the entries of the install section hold: all packages, or what the first
/// entry that is no package holds.
pub open spec fn entries_content(entries: Seq<json::JsonTree>) -> ReportContent
    decreases entries.len(),
{
    if entries.len() == 0 {
        ReportContent::Packages(Seq::empty())
    } else {
        match entries_content(entries.drop_last()) {
            ReportContent::Packages(packages) => match entry_content(entries.last()) {
                EntryContent::Package(package) => ReportContent::Packages(packages.push(package)),
                EntryContent::Fault(fault) => ReportContent::Fault(fault),
                EntryContent::Incomplete => ReportContent::Incomplete,
            },
            stopped => stopped,
        }
    }
}

/// What a report holds.
pub open spec fn report_content(report: json::JsonTree) -> ReportContent {
    match report.member("install"@) {
        Some(json::JsonTree::Array(entries)) => entries_content(entries),
        _ => ReportContent::Fault(ReportFault::InstallSection),
    }
}

/// What was read from one entry of a report.
enum EntryReading {
    Package(ResolvedPackage),
    Fault(ReportError),
    Incomplete,
}

/// What was read from a report.
#[derive(Debug)]
pub enum ReportReading {
    Packages(Vec<ResolvedPackage>),
    Fault(ReportError),
    /// The first entry that is no package has metadata without a name or a version.
    Incomplete,
}

impl View for ReportReading {
    type V = ReportContent;

    open spec fn view(&self) -> ReportContent {
        match self {
            ReportReading::Packages(packages) => ReportContent::Packages(package_views(packages@)),
            ReportReading::Fault(error) => ReportContent::Fault(error@),
            ReportReading::Incomplete => ReportContent::Incomplete,
        }
    }
}

fn read_entry(entry: &Json) -> (result: EntryReading)
    ensures
        match result {
            EntryReading::Package(package) => entry_content(entry@) == EntryContent::Package(
                package@,
            ),
            EntryReading::Fault(error) => entry_content(entry@) == EntryContent::Fault(error@),
            EntryReading::Incomplete => entry_content(entry@) == EntryContent::Incomplete,
        },
{
    let metadata = match entry.get("metadata") {
        Some(metadata) => metadata,
        None => {
            return EntryReading::Fault(ReportError::MetadataSection);
        },
    };
    match metadata {
        Json::Object(_) => {},
        _ => {
            return EntryReading::Fault(ReportError::MetadataSection);
        },
    }
    let name = match metadata.get("name") {
        None => {
            return EntryReading::Incomplete;
        },
        Some(name) => match name.as_str() {
            None => {
                return EntryReading::Fault(ReportError::PackageName);
            },
            Some(name) => name.clone(),
        },
    };
    let version = match metadata.get("version") {
        None => {
            return EntryReading::Incomplete;
        },
        Some(version) => match version.as_str() {
            None => {
                return EntryReading::Fault(ReportError::PackageVersion);
            },
            Some(version) => version.clone(),
        },
    };
    let requested = match entry.get("requested") {
        Some(Json::Bool(requested)) => *requested,
        _ => false,
    };
    EntryReading::Package(ResolvedPackage { name, version, requested })
}

/// Nothing behind the first entry that is no package makes a difference.
pub proof fn entries_content_stops(entries: Seq<json::JsonTree>, n: int)
    requires
        0 <= n <= entries.len(),
        !(entries_content(entries.take(n)) is Packages),
    ensures
        entries_content(entries) == entries_content(entries.take(n)),
    decreases entries.len(),
{
    if n == entries.len() {
        assert(entries.take(n) == entries);
    } else {
        assert(entries.drop_last().take(n) == entries.take(n));
        entries_content_stops(entries.drop_last(), n);
    }
}

/// Read the packages that a report lists.
pub fn read_report(report: &Json) -> (result: ReportReading)
    ensures
        result@ == report_content(report@),
{
    let entries = match report.get("install") {
        Some(Json::Array(entries)) => entries,
        _ => {
            return ReportReading::Fault(ReportError::InstallSection);
        },
    };
    let ghost trees = Json::Array(*entries)@->Array_0;
    let mut packages: Vec<ResolvedPackage> = Vec::new();
    assert(package_views(packages@) == Seq::<PackageView>::empty());
    for i in 0..entries.len()
        invariant
            trees == Json::Array(*entries)@->Array_0,
            report_content(report@) == entries_content(trees),
            entries_content(trees.take(i as int)) == ReportContent::Packages(
                package_views(packages@),
            ),
    {
        assert(trees.take(i + 1).drop_last() == trees.take(i as int));
        assert(trees[i as int] == entries@[i as int]@);
        match read_entry(&entries[i]) {
            EntryReading::Package(package) => {
                let ghost before = package_views(packages@);
                packages.push(package);
                assert(package_views(packages@) == before.push(package@));
            },
            EntryReading::Fault(error) => {
                proof {
                    entries_content_stops(trees, i + 1);
                }
                return ReportReading::Fault(error);
            },
            EntryReading::Incomplete => {
                proof {
                    entries_content_stops(trees, i + 1);
                }
                return ReportReading::Incomplete;
            },
        }
    }
    assert(trees.take(trees.len() as int) == trees);
    ReportReading::Packages(packages)
}

/// The packages that a report lists.
pub fn resolved_packages_from_pip_report(report: &Json) -> (result: Result<
    Vec<ResolvedPackage>,
    ReportError,
>)
    requires
        report_content(report@) !is Incomplete,
    ensures
        match result {
            Ok(packages) => report_content(report@) == ReportContent::Packages(
                package_views(packages@),
            ),
            Err(error) => report_content(report@) == ReportContent::Fault(error@),
        },
{
    match read_report(report) {
        ReportReading::Packages(packages) => Ok(packages),
        ReportReading::Fault(error) => Err(error),
        ReportReading::Incomplete => vstd::pervasive::unreached(),
    }
}

/// The first package whose canonical name is `name`, among those that were
/// requested or among all.
pub open spec fn first_named(
    packages: Seq<PackageView>,
    name: Seq<char>,
    only_requested: bool,
) -> Option<PackageView>
    decreases packages.len(),
{
    if packages.len() == 0 {
        None
    } else if names::canonical(packages[0].name) == name && (only_requested
        ==> packages[0].requested) {
        Some(packages[0])
    } else {
        first_named(packages.drop_first(), name, only_requested)
    }
}

/// The package that was asked for by the given name: the first one of that
/// canonical name that was requested, or else the first one of that canonical name.
pub open spec fn target(packages: Seq<PackageView>, package_name: Seq<char>) -> Option<PackageView> {
    match first_named(packages, names::canonical(package_name), true) {
        Some(package) => Some(package),
        None => first_named(packages, names::canonical(package_name), false),
    }
}

fn find_named<'a>(packages: &'a [ResolvedPackage], name: &str, only_requested: bool) -> (result:
    Option<&'a ResolvedPackage>)
    ensures
        match result {
            Some(package) => first_named(package_views(packages@), name@, only_requested) == Some(
                package@,
            ),
            None => first_named(package_views(packages@), name@, only_requested) is None,
        },
{
    let ghost all = package_views(packages@);
    assert(all.skip(0) == all);
    for i in 0..packages.len()
        invariant
            all == package_views(packages@),
            first_named(all, name@, only_requested) == first_named(
                all.skip(i as int),
                name@,
                only_requested,
            ),
    {
        let package = &packages[i];
        assert(all.skip(i as int).drop_first() == all.skip(i + 1));
        let canonical_name = names::canonical_package_name(package.name.as_str());
        if (package.requested || !only_requested) && text::equal(canonical_name.as_str(), name) {
            return Some(package);
        }
    }
    None
}

/// The package that was asked for by the given name.
pub fn select_target_package<'a>(packages: &'a [ResolvedPackage], package_name: &str) -> (result:
    Option<&'a ResolvedPackage>)
    ensures
        match result {
            Some(package) => target(package_views(packages@), package_name@) == Some(package@),
            None => target(package_views(packages@), package_name@) is None,
        },
{
    let package_name = names::canonical_package_name(package_name);
    match find_named(packages, package_name.as_str(), true) {
        Some(package) => Some(package),
        None => find_named(packages, package_name.as_str(), false),
    }
}

/// A selected package as a dependency.
pub open spec fn as_dependency(package: PackageView) -> dependencies::DependencyView {
    dependencies::DependencyView { name: package.name, version: Ok(package.version) }
}

/// The dependencies among the packages, by canonical name. The package with the
/// canonical name `target_name` is none of them. Of several packages with one
/// canonical name the last one counts.
pub open spec fn dependency_map(packages: Seq<PackageView>, target_name: Seq<char>) -> Map<
    Seq<char>,
    dependencies::DependencyView,
>
    decreases packages.len(),
{
    if packages.len() == 0 {
        Map::empty()
    } else {
        let earlier = dependency_map(packages.drop_last(), target_name);
        let name = names::canonical(packages.last().name);
        if name == target_name {
            earlier
        } else {
            earlier.insert(name, as_dependency(packages.last()))
        }
    }
}

/// Whether the values are those of the map, ordered by their keys.
pub open spec fn lists_in_order<V>(keys: Seq<Seq<char>>, values: Seq<V>, map: Map<Seq<char>, V>) -> bool {
    &&& keys.len() == values.len()
    &&& forall|i: int, j: int|
        0 <= i < j < keys.len() ==> text::precedes(#[trigger] keys[i], #[trigger] keys[j])
    &&& forall|i: int|
        0 <= i < keys.len() ==> #[trigger] map.dom().contains(keys[i]) && map[keys[i]] == values[i]
    &&& forall|key: Seq<char>| #[trigger] map.dom().contains(key) ==> keys.contains(key)
}

/// The canonical names of dependencies.
pub open spec fn canonical_names(list: Seq<dependencies::DependencyView>) -> Seq<Seq<char>> {
    Seq::new(list.len(), |i: int| names::canonical(list[i].name))
}

/// Whether a list holds the dependencies among the packages, ordered by their
/// canonical names.
pub open spec fn lists_dependencies(
    list: Seq<dependencies::DependencyView>,
    packages: Seq<PackageView>,
    package_name: Seq<char>,
) -> bool {
    lists_in_order(
        canonical_names(list),
        list,
        dependency_map(packages, names::canonical(package_name)),
    )
}

proof fn listed_after_insertion<V>(
    keys: Seq<Seq<char>>,
    values: Seq<V>,
    map: Map<Seq<char>, V>,
    at: int,
    key: Seq<char>,
    value: V,
)
    requires
        lists_in_order(keys, values, map),
        0 <= at <= keys.len(),
        forall|i: int| 0 <= i < at ==> text::precedes(#[trigger] keys[i], key),
        at < keys.len() ==> text::precedes(key, keys[at]),
    ensures
        lists_in_order(keys.insert(at, key), values.insert(at, value), map.insert(key, value)),
{
    let new_keys = keys.insert(at, key);
    let new_map = map.insert(key, value);
    assert forall|i: int| at <= i < keys.len() implies text::precedes(
        key,
        #[trigger] keys[i],
    ) by {
        if i > at {
            text::precedes_is_transitive(key, keys[at], keys[i]);
        }
    }
    assert forall|i: int, j: int| 0 <= i < j < new_keys.len() implies text::precedes(
        #[trigger] new_keys[i],
        #[trigger] new_keys[j],
    ) by {
        let before_i = if i < at { i } else { i - 1 };
        let before_j = if j < at { j } else { j - 1 };
        if i != at && j != at {
            assert(text::precedes(keys[before_i], keys[before_j]));
        }
    }
    assert forall|i: int| 0 <= i < new_keys.len() implies #[trigger] new_map.dom().contains(
        new_keys[i],
    ) && new_map[new_keys[i]] == values.insert(at, value)[i] by {
        if i != at {
            let before = if i < at { i } else { i - 1 };
            assert(new_keys[i] == keys[before]);
            assert(map.dom().contains(keys[before]));
            text::precedes_is_total(key, keys[before]);
        }
    }
    assert forall|other: Seq<char>| #[trigger] new_map.dom().contains(
        other,
    ) implies new_keys.contains(other) by {
        if other == key {
            assert(new_keys[at] == key);
        } else {
            assert(map.dom().contains(other));
            let i = keys.index_of(other);
            assert(new_keys[if i < at { i } else { i + 1 }] == other);
        }
    }
}

proof fn listed_after_replacement<V>(
    keys: Seq<Seq<char>>,
    values: Seq<V>,
    map: Map<Seq<char>, V>,
    at: int,
    value: V,
)
    requires
        lists_in_order(keys, values, map),
        0 <= at < keys.len(),
    ensures
        lists_in_order(keys, values.update(at, value), map.insert(keys[at], value)),
{
    let new_map = map.insert(keys[at], value);
    assert forall|i: int| 0 <= i < keys.len() implies #[trigger] new_map.dom().contains(keys[i])
        && new_map[keys[i]] == values.update(at, value)[i] by {
        assert(map.dom().contains(keys[i]));
        if i != at {
            text::precedes_is_total(keys[i], keys[at]);
        }
    }
    assert forall|other: Seq<char>| #[trigger] new_map.dom().contains(other) implies keys.contains(
        other,
    ) by {
        if other != keys[at] {
            assert(map.dom().contains(other));
        }
    }
}

/// Put a dependency into a list that is ordered by canonical name, in place of one
/// with the same canonical name.
fn insert_dependency(
    keys: &mut Vec<String>,
    list: &mut Vec<Dependency>,
    key: String,
    dependency: Dependency,
    Ghost(map): Ghost<Map<Seq<char>, dependencies::DependencyView>>,
)
    requires
        lists_in_order(
            text::views(old(keys)@),
            dependencies::dependency_views(old(list)@),
            map,
        ),
    ensures
        lists_in_order(
            text::views(final(keys)@),
            dependencies::dependency_views(final(list)@),
            map.insert(key@, dependency@),
        ),
        text::views(old(keys)@) == canonical_names(dependencies::dependency_views(old(list)@))
            && key@ == names::canonical(dependency.name@) ==> text::views(final(keys)@)
            == canonical_names(dependencies::dependency_views(final(list)@)),
{
    let ghost old_keys = text::views(keys@);
    let ghost old_list = dependencies::dependency_views(list@);
    let mut at: usize = 0;
    while at < keys.len()
        invariant
            old_keys == text::views(keys@),
            at <= keys.len(),
            forall|i: int| 0 <= i < at ==> text::precedes(#[trigger] old_keys[i], key@),
            old_keys == text::views(old(keys)@),
            old_list == dependencies::dependency_views(list@),
            old_list == dependencies::dependency_views(old(list)@),
            lists_in_order(old_keys, old_list, map),
        ensures
            at < keys.len() ==> text::precedes(key@, old_keys[at as int]),
        decreases keys.len() - at,
    {
        match text::order(key.as_str(), keys[at].as_str()) {
            Order::Before => {
                break;
            },
            Order::Same => {
                proof {
                    listed_after_replacement(old_keys, old_list, map, at as int, dependency@);
                }
                let ghost replaced = dependency@;
                list.set(at, dependency);
                assert(dependencies::dependency_views(list@) == old_list.update(
                    at as int,
                    replaced,
                ));
                assert(old_keys[at as int] == key@);
                return ;
            },
            Order::After => {
                at += 1;
            },
        }
    }
    proof {
        listed_after_insertion(old_keys, old_list, map, at as int, key@, dependency@);
    }
    let ghost inserted = dependency@;
    let ghost inserted_key = key@;
    keys.insert(at, key);
    list.insert(at, dependency);
    assert(text::views(keys@) == old_keys.insert(at as int, inserted_key));
    assert(dependencies::dependency_views(list@) == old_list.insert(at as int, inserted));
}

/// The version of the package that was asked for: the one that pip selected, or
/// else the one that the caller gave.
pub open spec fn target_version(
    packages: Seq<PackageView>,
    package_name: Seq<char>,
    fallback: Option<Seq<char>>,
) -> Option<Seq<char>> {
    match target(packages, package_name) {
        Some(package) => Some(package.version),
        None => fallback,
    }
}

/// Why a report with this content does not give the dependencies of the package.
pub open spec fn dependencies_fault(
    content: ReportContent,
    package_name: Seq<char>,
    fallback: Option<Seq<char>>,
) -> Option<ReportFault> {
    match content {
        ReportContent::Packages(packages) => if target_version(
            packages,
            package_name,
            fallback,
        ) is None {
            Some(ReportFault::TargetMissing)
        } else {
            None
        },
        ReportContent::Fault(fault) => Some(fault),
        ReportContent::Incomplete => None,
    }
}

/// Whether `found` is what a report with this content says of the package: its
/// version, and its dependencies in the order of their canonical names.
pub open spec fn is_resolution(
    found: PackageDependencies,
    content: ReportContent,
    package_name: Seq<char>,
    fallback: Option<Seq<char>>,
) -> bool {
    &&& content matches ReportContent::Packages(packages)
    &&& target_version(packages, package_name, fallback) matches Some(version)
    &&& dependencies::version_view(found.package_version) == Ok::<
        _,
        dependencies::VersionFault,
    >(version)
    &&& found.registry_host_name@ == "pypi.org"@
    &&& lists_dependencies(
        dependencies::dependency_views(found.dependencies@),
        packages,
        package_name,
    )
}

/// The packages but for the one that was asked for, as dependencies in the order of
/// their canonical names.
fn list_dependencies(packages: Vec<ResolvedPackage>, package_name: &str) -> (result: Vec<Dependency>)
    ensures
        lists_dependencies(
            dependencies::dependency_views(result@),
            package_views(packages@),
            package_name@,
        ),
{
    let target_name = names::canonical_package_name(package_name);
    let ghost all = package_views(packages@);
    let mut keys: Vec<String> = Vec::new();
    let mut list: Vec<Dependency> = Vec::new();
    assert(text::views(keys@) == canonical_names(dependencies::dependency_views(list@)));
    for i in 0..packages.len()
        invariant
            all == package_views(packages@),
            target_name@ == names::canonical(package_name@),
            text::views(keys@) == canonical_names(dependencies::dependency_views(list@)),
            lists_in_order(
                text::views(keys@),
                dependencies::dependency_views(list@),
                dependency_map(all.take(i as int), target_name@),
            ),
    {
        let package = &packages[i];
        assert(all.take(i + 1).drop_last() == all.take(i as int));
        let canonical_name = names::canonical_package_name(package.name.as_str());
        if !text::equal(canonical_name.as_str(), target_name.as_str()) {
            let dependency = Dependency {
                name: package.name.clone(),
                version: Ok(package.version.clone()),
            };
            assert(dependency@ == as_dependency(package@));
            insert_dependency(
                &mut keys,
                &mut list,
                canonical_name,
                dependency,
                Ghost(dependency_map(all.take(i as int), target_name@)),
            );
        }
    }
    assert(all.take(all.len() as int) == all);
    list
}

fn dependencies_of(
    packages: Vec<ResolvedPackage>,
    package_name: &str,
    fallback_package_version: Option<&str>,
) -> (result: Result<PackageDependencies, ReportError>)
    ensures
        match result {
            Ok(found) => is_resolution(
                found,
                ReportContent::Packages(package_views(packages@)),
                package_name@,
                text::optional_view(fallback_package_version),
            ),
            Err(error) => error@ is TargetMissing && target_version(
                package_views(packages@),
                package_name@,
                text::optional_view(fallback_package_version),
            ) is None,
        },
{
    let package_version = match select_target_package(packages.as_slice(), package_name) {
        Some(package) => package.version.clone(),
        None => match fallback_package_version {
            Some(version) => version.to_owned(),
            None => {
                return Err(ReportError::TargetMissing);
            },
        },
    };
    Ok(
        PackageDependencies {
            package_version: Ok(package_version),
            registry_host_name: pipfile::get_registry_host_name(),
            dependencies: list_dependencies(packages, package_name),
        },
    )
}

/// The dependencies of a package, as pip's report gives them.
pub fn package_dependencies_from_pip_report(
    report: &Json,
    package_name: &str,
    fallback_package_version: Option<&str>,
) -> (result: Result<PackageDependencies, ReportError>)
    requires
        report_content(report@) !is Incomplete,
    ensures
        match result {
            Ok(found) => is_resolution(
                found,
                report_content(report@),
                package_name@,
                text::optional_view(fallback_package_version),
            ),
            Err(error) => dependencies_fault(
                report_content(report@),
                package_name@,
                text::optional_view(fallback_package_version),
            ) == Some(error@),
        },
{
    match resolved_packages_from_pip_report(report) {
        Ok(packages) => dependencies_of(packages, package_name, fallback_package_version),
        Err(error) => Err(error),
    }
}

/// The report that pip wrote. `text` is what was read from the file at `report_path`,
/// where it was read.
pub fn resolver_report(text: Option<&str>, report_path: &str) -> (result: Result<Json, ReportError>)
    ensures
        match (text, result) {
            (Some(text), Ok(report)) => json::read_text(text@) == Ok::<_, serde_json::Error>(
                report@,
            ),
            (Some(text), Err(error)) => json::read_text(text@) matches Err(source) && error@
                == ReportFault::NotJson(source),
            (None, Ok(_)) => false,
            (None, Err(error)) => error@ == ReportFault::NotRead(report_path@),
        },
{
    match text {
        Some(text) => match Json::parse(text) {
            Ok(report) => Ok(report),
            Err(error) => Err(ReportError::NotJson(error)),
        },
        None => Err(ReportError::NotRead { report_path: report_path.to_owned() }),
    }
}

/// What a report file holds, where `read` is what its text says as JSON, if it was
/// read.
pub open spec fn file_content(
    read: Option<Result<json::JsonTree, serde_json::Error>>,
    report_path: Seq<char>,
) -> ReportContent {
    match read {
        Some(Ok(report)) => report_content(report),
        Some(Err(error)) => ReportContent::Fault(ReportFault::NotJson(error)),
        None => ReportContent::Fault(ReportFault::NotRead(report_path)),
    }
}

/// What a text says as JSON, if there is a text.
pub open spec fn optional_json(text: Option<&str>) -> Option<
    Result<json::JsonTree, serde_json::Error>,
> {
    match text {
        Some(text) => Some(json::read_text(text@)),
        None => None,
    }
}

/// The dependencies of a package, as pip's report gives them, one element for the one
/// registry. `text` is what was read from the file at `report_path`, where it was
/// read. The result is `None` where metadata lacks the name or the version of a
/// package.
pub fn identify_package_dependencies(
    text: Option<&str>,
    report_path: &str,
    package_name: &str,
    package_version: Option<&str>,
) -> (result: Option<Result<Vec<PackageDependencies>, ReportError>>)
    ensures
        match result {
            Some(Ok(found)) => found@.len() == 1 && is_resolution(
                found@[0],
                file_content(optional_json(text), report_path@),
                package_name@,
                text::optional_view(package_version),
            ),
            Some(Err(error)) => dependencies_fault(
                file_content(optional_json(text), report_path@),
                package_name@,
                text::optional_view(package_version),
            ) == Some(error@),
            None => file_content(optional_json(text), report_path@) is Incomplete,
        },
{
    let report = match resolver_report(text, report_path) {
        Ok(report) => report,
        Err(error) => {
            return Some(Err(error));
        },
    };
    match read_report(&report) {
        ReportReading::Incomplete => None,
        _ => match package_dependencies_from_pip_report(&report, package_name, package_version) {
            Ok(dependencies) => Some(Ok(vec![dependencies])),
            Err(error) => Some(Err(error)),
        },
    }
}

/// Whether the package at `k` is the last one with its canonical name.
pub open spec fn is_last_of_name(packages: Seq<PackageView>, k: int) -> bool {
    forall|later: int|
        k < later < packages.len() ==> names::canonical(#[trigger] packages[later].name)
            != names::canonical(packages[k].name)
}

/// Where the dependency of a canonical name comes from: the last package of that
/// canonical name, which is not the canonical name of the target.
proof fn dependency_origin(packages: Seq<PackageView>, target_name: Seq<char>, name: Seq<char>)
    ensures
        dependency_map(packages, target_name).dom().contains(name) ==> name != target_name && exists|
            k: int,
        |
            0 <= k < packages.len() && names::canonical((#[trigger] packages[k]).name) == name
                && is_last_of_name(packages, k) && dependency_map(packages, target_name)[name]
                == as_dependency(packages[k]),
    decreases packages.len(),
{
    if packages.len() > 0 && dependency_map(packages, target_name).dom().contains(name) {
        let last = packages.len() - 1;
        if names::canonical(packages[last].name) == name && name != target_name {
            assert(is_last_of_name(packages, last));
        } else {
            let earlier = packages.drop_last();
            dependency_origin(earlier, target_name, name);
            let k = choose|k: int|
                0 <= k < earlier.len() && names::canonical((#[trigger] earlier[k]).name) == name
                    && is_last_of_name(earlier, k) && dependency_map(earlier, target_name)[name]
                    == as_dependency(earlier[k]);
            assert(packages[k] == earlier[k]);
            assert(is_last_of_name(packages, k)) by {
                assert forall|later: int| k < later < packages.len() implies names::canonical(
                    #[trigger] packages[later].name,
                ) != names::canonical(packages[k].name) by {
                    if later < last {
                        assert(earlier[later] == packages[later]);
                    }
                }
            }
        }
    }
}

proof fn package_has_dependency(packages: Seq<PackageView>, target_name: Seq<char>, k: int)
    requires
        0 <= k < packages.len(),
        names::canonical(packages[k].name) != target_name,
    ensures
        dependency_map(packages, target_name).dom().contains(names::canonical(packages[k].name)),
    decreases packages.len(),
{
    if k < packages.len() - 1 {
        package_has_dependency(packages.drop_last(), target_name, k);
    }
}

/// Every dependency of a package is one of the packages that pip selected, with
/// the version that pip selected: the last package of its canonical name.
pub proof fn dependencies_are_selected(
    list: Seq<dependencies::DependencyView>,
    packages: Seq<PackageView>,
    package_name: Seq<char>,
    i: int,
)
    requires
        lists_dependencies(list, packages, package_name),
        0 <= i < list.len(),
    ensures
        exists|k: int|
            0 <= k < packages.len() && list[i] == as_dependency(#[trigger] packages[k])
                && is_last_of_name(packages, k),
{
    let target_name = names::canonical(package_name);
    let name = canonical_names(list)[i];
    assert(dependency_map(packages, target_name).dom().contains(name));
    dependency_origin(packages, target_name, name);
}

/// A package is no dependency of itself, however its name is spelled.
pub proof fn target_is_no_dependency(
    list: Seq<dependencies::DependencyView>,
    packages: Seq<PackageView>,
    package_name: Seq<char>,
    i: int,
)
    requires
        lists_dependencies(list, packages, package_name),
        0 <= i < list.len(),
    ensures
        names::canonical(list[i].name) != names::canonical(package_name),
{
    let target_name = names::canonical(package_name);
    let name = canonical_names(list)[i];
    assert(dependency_map(packages, target_name).dom().contains(name));
    dependency_origin(packages, target_name, name);
}

/// Every package that pip selected, but for the target, is among the dependencies
/// under its canonical name, and under that name once.
pub proof fn selected_packages_are_dependencies(
    list: Seq<dependencies::DependencyView>,
    packages: Seq<PackageView>,
    package_name: Seq<char>,
    k: int,
)
    requires
        lists_dependencies(list, packages, package_name),
        0 <= k < packages.len(),
        names::canonical(packages[k].name) != names::canonical(package_name),
    ensures
        exists|i: int|
            0 <= i < list.len() && names::canonical(#[trigger] list[i].name) == names::canonical(
                packages[k].name,
            ),
        forall|i: int, j: int|
            0 <= i < j < list.len() ==> names::canonical(#[trigger] list[i].name)
                != names::canonical(#[trigger] list[j].name),
{
    package_has_dependency(packages, names::canonical(package_name), k);
    let keys = canonical_names(list);
    let i = keys.index_of(names::canonical(packages[k].name));
    assert(names::canonical(list[i].name) == keys[i]);
    assert forall|i: int, j: int| 0 <= i < j < list.len() implies names::canonical(
        #[trigger] list[i].name,
    ) != names::canonical(#[trigger] list[j].name) by {
        assert(text::precedes(keys[i], keys[j]));
        text::precedes_is_total(keys[i], keys[j]);
    }
}

/// A position in one listing has a counterpart in the other, and no later one.
proof fn ordered_listing_position<V>(
    keys: Seq<Seq<char>>,
    values: Seq<V>,
    other_keys: Seq<Seq<char>>,
    other_values: Seq<V>,
    map: Map<Seq<char>, V>,
    n: int,
)
    requires
        lists_in_order(keys, values, map),
        lists_in_order(other_keys, other_values, map),
        0 <= n <= keys.len(),
    ensures
        n <= other_keys.len(),
        forall|i: int| 0 <= i < n ==> #[trigger] keys[i] == other_keys[i],
    decreases n,
{
    if n > 0 {
        let at = n - 1;
        ordered_listing_position(keys, values, other_keys, other_values, map, at);
        assert(map.dom().contains(keys[at]));
        let there = other_keys.index_of(keys[at]);
        assert(other_keys[there] == keys[at]);
        if there < at {
            assert(text::precedes(keys[there], keys[at]));
            text::precedes_is_total(keys[there], keys[at]);
        }
        if there > at {
            assert(map.dom().contains(other_keys[at]));
            let here = keys.index_of(other_keys[at]);
            assert(keys[here] == other_keys[at]);
            assert(text::precedes(other_keys[at], other_keys[there]));
            text::precedes_is_total(other_keys[at], other_keys[there]);
            if here < at {
                assert(text::precedes(other_keys[here], other_keys[at]));
                text::precedes_is_total(other_keys[here], other_keys[at]);
            } else if here > at {
                assert(text::precedes(keys[at], keys[here]));
                text::precedes_is_total(keys[at], keys[here]);
            }
        }
    }
}

/// The selected packages and the name of the target determine the list of
/// dependencies, its order with it. The spelling of that name makes no difference.
pub proof fn dependencies_are_determined(
    list: Seq<dependencies::DependencyView>,
    other: Seq<dependencies::DependencyView>,
    packages: Seq<PackageView>,
    package_name: Seq<char>,
    other_name: Seq<char>,
)
    requires
        names::canonical(package_name) == names::canonical(other_name),
        lists_dependencies(list, packages, package_name),
        lists_dependencies(other, packages, other_name),
    ensures
        list == other,
{
    let map = dependency_map(packages, names::canonical(package_name));
    let keys = canonical_names(list);
    let other_keys = canonical_names(other);
    ordered_listing_position(keys, list, other_keys, other, map, keys.len() as int);
    ordered_listing_position(other_keys, other, keys, list, map, other_keys.len() as int);
    assert forall|i: int| 0 <= i < list.len() implies list[i] == other[i] by {
        assert(map.dom().contains(keys[i]));
        assert(map.dom().contains(other_keys[i]));
    }
    assert(list == other);
}

/// A package that was asked for by two spellings of one name has one version.
pub proof fn version_ignores_spelling(
    packages: Seq<PackageView>,
    package_name: Seq<char>,
    other_name: Seq<char>,
    fallback: Option<Seq<char>>,
)
    requires
        names::canonical(package_name) == names::canonical(other_name),
    ensures
        target_version(packages, package_name, fallback) == target_version(
            packages,
            other_name,
            fallback,
        ),
{
}

proof fn first_named_is_there(packages: Seq<PackageView>, name: Seq<char>, only_requested: bool, k: int)
    requires
        0 <= k < packages.len(),
        names::canonical(packages[k].name) == name,
        only_requested ==> packages[k].requested,
    ensures
        first_named(packages, name, only_requested) is Some,
    decreases packages.len(),
{
    if k > 0 {
        assert(packages.drop_first()[k - 1] == packages[k]);
        first_named_is_there(packages.drop_first(), name, only_requested, k - 1);
    }
}

/// The version that the caller gave counts only where pip selected no package of
/// that name.
pub proof fn selected_version_comes_first(
    packages: Seq<PackageView>,
    package_name: Seq<char>,
    fallback: Option<Seq<char>>,
    k: int,
)
    requires
        0 <= k < packages.len(),
        names::canonical(packages[k].name) == names::canonical(package_name),
    ensures
        target_version(packages, package_name, fallback) is Some,
        target_version(packages, package_name, fallback) == target_version(
            packages,
            package_name,
            None,
        ),
{
    first_named_is_there(packages, names::canonical(package_name), false, k);
}

proof fn first_named_matches(packages: Seq<PackageView>, name: Seq<char>, only_requested: bool)
    ensures
        first_named(packages, name, only_requested) matches Some(package)
            ==> packages.contains(package) && names::canonical(package.name) == name && (
        only_requested ==> package.requested),
    decreases packages.len(),
{
    if packages.len() > 0 && first_named(packages, name, only_requested) is Some {
        let package = first_named(packages, name, only_requested)->0;
        if package == packages[0] && names::canonical(packages[0].name) == name {
            assert(packages.contains(packages[0]));
        }
        first_named_matches(packages.drop_first(), name, only_requested);
        if packages.drop_first().contains(package) {
            let i = packages.drop_first().index_of(package);
            assert(packages[i + 1] == package);
        }
    }
}

/// The target is one of the selected packages, of the canonical name that was asked
/// for. It is one that was requested, where such a package of that name is there.
pub proof fn target_is_selected(packages: Seq<PackageView>, package_name: Seq<char>)
    ensures
        target(packages, package_name) matches Some(package) ==> packages.contains(package)
            && names::canonical(package.name) == names::canonical(package_name),
        forall|k: int|
            0 <= k < packages.len() && names::canonical((#[trigger] packages[k]).name)
                == names::canonical(package_name) && packages[k].requested ==> target(
                packages,
                package_name,
            ) is Some && target(packages, package_name)->0.requested,
{
    let name = names::canonical(package_name);
    first_named_matches(packages, name, true);
    first_named_matches(packages, name, false);
    assert forall|k: int|
        0 <= k < packages.len() && names::canonical((#[trigger] packages[k]).name) == name
            && packages[k].requested implies target(packages, package_name) is Some && target(
        packages,
        package_name,
    )->0.requested by {
        first_named_is_there(packages, name, true, k);
    }
}

/// Whether an entry of a report writes down a package: its metadata is an object with
/// the name under `name` and the version under `version`, each a text, and it says
/// whether the package was requested.
pub open spec fn writes_package(entry: json::JsonTree, package: PackageView) -> bool {
    &&& exists|metadata: json::JsonTree| #[trigger]
        json::has_member(entry, "metadata"@, metadata) && json::has_member(
            metadata,
            "name"@,
            json::JsonTree::Text(package.name),
        ) && json::has_member(metadata, "version"@, json::JsonTree::Text(package.version))
    &&& package.requested == json::has_member(entry, "requested"@, json::JsonTree::Bool(true))
}

/// An entry gives the name and the version that stand in its metadata, and whether it
/// was requested, whatever else it holds.
pub proof fn entries_give_name_and_version(entry: json::JsonTree, package: PackageView)
    ensures
        writes_package(entry, package) <==> entry_content(entry) == EntryContent::Package(package),
{
    let truth = json::JsonTree::Bool(true);
    json::members_are_found(entry, "requested"@, truth);
    if writes_package(entry, package) {
        let metadata = choose|metadata: json::JsonTree| #[trigger]
            json::has_member(entry, "metadata"@, metadata) && json::has_member(
                metadata,
                "name"@,
                json::JsonTree::Text(package.name),
            ) && json::has_member(metadata, "version"@, json::JsonTree::Text(package.version));
        json::members_are_found(entry, "metadata"@, metadata);
        json::member_texts_are_found(metadata, "name"@, package.name);
        json::member_texts_are_found(metadata, "version"@, package.version);
    }
    if entry_content(entry) == EntryContent::Package(package) {
        let metadata = entry.member("metadata"@)->0;
        json::members_are_found(entry, "metadata"@, metadata);
        json::member_texts_are_found(metadata, "name"@, package.name);
        json::member_texts_are_found(metadata, "version"@, package.version);
        assert(json::has_member(entry, "metadata"@, metadata));
    }
}

/// An entry is faulty where its metadata is missing or no object, where the name is no
/// text, or where the name is a text and the version is none. Where the name is
/// missing, or the name is a text and the version is missing, it is incomplete.
pub proof fn entries_without_name_and_version(
    entry: json::JsonTree,
    metadata: json::JsonTree,
    value: json::JsonTree,
    name: Seq<char>,
)
    ensures
        json::lacks_member(entry, "metadata"@) ==> entry_content(entry) == EntryContent::Fault(
            ReportFault::MetadataSection,
        ),
        json::has_member(entry, "metadata"@, metadata) ==> {
            &&& !(metadata is Object) ==> entry_content(entry) == EntryContent::Fault(
                ReportFault::MetadataSection,
            )
            &&& metadata is Object && json::lacks_member(metadata, "name"@) ==> entry_content(entry)
                == EntryContent::Incomplete
            &&& json::has_member(metadata, "name"@, value) && !(value is Text) ==> entry_content(
                entry,
            ) == EntryContent::Fault(ReportFault::PackageName)
            &&& json::has_member(metadata, "name"@, json::JsonTree::Text(name))
                && json::lacks_member(metadata, "version"@) ==> entry_content(entry)
                == EntryContent::Incomplete
            &&& json::has_member(metadata, "name"@, json::JsonTree::Text(name)) && json::has_member(
                metadata,
                "version"@,
                value,
            ) && !(value is Text) ==> entry_content(entry) == EntryContent::Fault(
                ReportFault::PackageVersion,
            )
        },
{
    json::members_are_found(entry, "metadata"@, metadata);
    json::members_are_found(metadata, "name"@, value);
    json::members_are_found(metadata, "version"@, value);
    json::members_are_found(metadata, "name"@, json::JsonTree::Text(name));
}

proof fn all_entries_are_packages(entries: Seq<json::JsonTree>, packages: Seq<PackageView>)
    requires
        entries.len() == packages.len(),
        forall|i: int|
            0 <= i < entries.len() ==> entry_content(#[trigger] entries[i])
                == EntryContent::Package(packages[i]),
    ensures
        entries_content(entries) == ReportContent::Packages(packages),
    decreases entries.len(),
{
    if entries.len() == 0 {
        assert(packages == Seq::<PackageView>::empty());
    } else {
        let last = entries.len() - 1;
        assert forall|i: int| 0 <= i < last implies entry_content(
            #[trigger] entries.drop_last()[i],
        ) == EntryContent::Package(packages.drop_last()[i]) by {
            assert(entries.drop_last()[i] == entries[i]);
        }
        all_entries_are_packages(entries.drop_last(), packages.drop_last());
        assert(entry_content(entries[last]) == EntryContent::Package(packages[last]));
        assert(packages.drop_last().push(packages.last()) == packages);
    }
}

/// A report lists the packages that the entries of its install section write down, one
/// for each entry and in the order of the entries.
pub proof fn reports_list_all_entries(
    report: json::JsonTree,
    entries: Seq<json::JsonTree>,
    packages: Seq<PackageView>,
)
    requires
        json::has_member(report, "install"@, json::JsonTree::Array(entries)),
        entries.len() == packages.len(),
        forall|i: int| 0 <= i < entries.len() ==> writes_package(#[trigger] entries[i], packages[i]),
    ensures
        report_content(report) == ReportContent::Packages(packages),
{
    json::members_are_found(report, "install"@, json::JsonTree::Array(entries));
    assert forall|i: int| 0 <= i < entries.len() implies entry_content(#[trigger] entries[i])
        == EntryContent::Package(packages[i]) by {
        entries_give_name_and_version(entries[i], packages[i]);
    }
    all_entries_are_packages(entries, packages);
}

/// The first entry that writes down no package decides what is wrong with a report.
pub proof fn first_bad_entry_decides(
    report: json::JsonTree,
    entries: Seq<json::JsonTree>,
    packages: Seq<PackageView>,
)
    requires
        json::has_member(report, "install"@, json::JsonTree::Array(entries)),
        packages.len() < entries.len(),
        forall|i: int|
            0 <= i < packages.len() ==> writes_package(#[trigger] entries[i], packages[i]),
    ensures
        match entry_content(entries[packages.len() as int]) {
            EntryContent::Package(_) => true,
            EntryContent::Fault(fault) => report_content(report) == ReportContent::Fault(fault),
            EntryContent::Incomplete => report_content(report) == ReportContent::Incomplete,
        },
{
    json::members_are_found(report, "install"@, json::JsonTree::Array(entries));
    let k = packages.len() as int;
    let good = entries.take(k);
    assert forall|i: int| 0 <= i < good.len() implies entry_content(#[trigger] good[i])
        == EntryContent::Package(packages[i]) by {
        assert(good[i] == entries[i]);
        entries_give_name_and_version(entries[i], packages[i]);
    }
    all_entries_are_packages(good, packages);
    assert(entries.take(k + 1).drop_last() == good);
    assert(entries.take(k + 1).last() == entries[k]);
    if !(entry_content(entries[k]) is Package) {
        entries_content_stops(entries, k + 1);
    }
}

/// Without a list under `install` a report is faulty.
pub proof fn reports_have_an_install_section(report: json::JsonTree, value: json::JsonTree)
    requires
        json::lacks_member(report, "install"@) || (json::has_member(report, "install"@, value)
            && !(value is Array)),
    ensures
        report_content(report) == ReportContent::Fault(ReportFault::InstallSection),
{
    json::members_are_found(report, "install"@, value);
}

proof fn first_named_is_first(
    packages: Seq<PackageView>,
    name: Seq<char>,
    only_requested: bool,
    k: int,
)
    requires
        0 <= k < packages.len(),
        names::canonical(packages[k].name) == name,
        only_requested ==> packages[k].requested,
        forall|i: int|
            0 <= i < k ==> names::canonical((#[trigger] packages[i]).name) != name || (
            only_requested && !packages[i].requested),
    ensures
        first_named(packages, name, only_requested) == Some(packages[k]),
    decreases k,
{
    if k > 0 {
        let rest = packages.drop_first();
        assert(names::canonical(packages[0].name) != name || (only_requested
            && !packages[0].requested));
        assert forall|i: int| 0 <= i < k - 1 implies names::canonical((#[trigger] rest[i]).name)
            != name || (only_requested && !rest[i].requested) by {
            assert(rest[i] == packages[i + 1]);
        }
        assert(rest[k - 1] == packages[k]);
        first_named_is_first(rest, name, only_requested, k - 1);
    }
}

proof fn first_named_may_be_missing(
    packages: Seq<PackageView>,
    name: Seq<char>,
    only_requested: bool,
)
    requires
        forall|i: int|
            0 <= i < packages.len() ==> names::canonical((#[trigger] packages[i]).name) != name || (
            only_requested && !packages[i].requested),
    ensures
        first_named(packages, name, only_requested) is None,
    decreases packages.len(),
{
    if packages.len() > 0 {
        let rest = packages.drop_first();
        assert(names::canonical(packages[0].name) != name || (only_requested
            && !packages[0].requested));
        assert forall|i: int| 0 <= i < rest.len() implies names::canonical(
            (#[trigger] rest[i]).name,
        ) != name || (only_requested && !rest[i].requested) by {
            assert(rest[i] == packages[i + 1]);
        }
        first_named_may_be_missing(rest, name, only_requested);
    }
}

/// Whether the package at `k` is the one that was asked for: the first requested one
/// of the name, or the first one of the name where none was requested.
pub open spec fn is_target_at(
    packages: Seq<PackageView>,
    package_name: Seq<char>,
    k: int,
) -> bool {
    &&& 0 <= k < packages.len()
    &&& names::canonical(packages[k].name) == names::canonical(package_name)
    &&& forall|i: int|
        0 <= i < packages.len() && names::canonical((#[trigger] packages[i]).name)
            == names::canonical(package_name) && packages[i].requested ==> packages[k].requested
            && k <= i
    &&& !packages[k].requested ==> forall|i: int|
        0 <= i < packages.len() && names::canonical((#[trigger] packages[i]).name)
            == names::canonical(package_name) ==> k <= i
}

/// The target is the first requested package of the name, or else the first one of the
/// name. Its version is the version of the package, and where there is no such package
/// the version that the caller gave.
pub proof fn the_first_of_the_name_is_the_target(
    packages: Seq<PackageView>,
    package_name: Seq<char>,
    fallback: Option<Seq<char>>,
    k: int,
)
    ensures
        is_target_at(packages, package_name, k) ==> target(packages, package_name) == Some(
            packages[k],
        ) && target_version(packages, package_name, fallback) == Some(packages[k].version),
        (forall|i: int|
            0 <= i < packages.len() ==> names::canonical((#[trigger] packages[i]).name)
                != names::canonical(package_name)) ==> target(packages, package_name) is None
            && target_version(packages, package_name, fallback) == fallback,
{
    let name = names::canonical(package_name);
    if is_target_at(packages, package_name, k) {
        if packages[k].requested {
            first_named_is_first(packages, name, true, k);
        } else {
            first_named_may_be_missing(packages, name, true);
            first_named_is_first(packages, name, false, k);
        }
    }
    if forall|i: int|
        0 <= i < packages.len() ==> names::canonical((#[trigger] packages[i]).name) != name {
        first_named_may_be_missing(packages, name, true);
        first_named_may_be_missing(packages, name, false);
    }
}

/// A list of packages stands for its elements in their order, each with its own name
/// and version.
pub proof fn packages_stand_for_themselves(packages: Seq<ResolvedPackage>)
    ensures
        package_views(packages).len() == packages.len(),
        forall|i: int|
            0 <= i < packages.len() ==> (#[trigger] package_views(packages)[i]).name
                == packages[i].name@ && package_views(packages)[i].version == packages[i].version@
                && package_views(packages)[i].requested == packages[i].requested,
{
}

/// What is listed as a dependency is what pip selected: each element has the name and
/// the version of one package, the last one of its name.
pub proof fn listed_versions_are_selected(
    list: Seq<dependencies::DependencyView>,
    packages: Seq<PackageView>,
    package_name: Seq<char>,
    i: int,
)
    requires
        lists_dependencies(list, packages, package_name),
        0 <= i < list.len(),
    ensures
        exists|k: int|
            0 <= k < packages.len() && list[i].name == (#[trigger] packages[k]).name
                && list[i].version == Ok::<_, dependencies::VersionFault>(packages[k].version)
                && is_last_of_name(packages, k),
{
    dependencies_are_selected(list, packages, package_name, i);
    let k = choose|k: int|
        0 <= k < packages.len() && list[i] == as_dependency(#[trigger] packages[k])
            && is_last_of_name(packages, k);
    assert(list[i].name == packages[k].name);
}

/// Every package that is not the target, and is the last one of its name, is listed
/// with its name and its version.
pub proof fn selected_versions_are_listed(
    list: Seq<dependencies::DependencyView>,
    packages: Seq<PackageView>,
    package_name: Seq<char>,
    k: int,
)
    requires
        lists_dependencies(list, packages, package_name),
        0 <= k < packages.len(),
        names::canonical(packages[k].name) != names::canonical(package_name),
        is_last_of_name(packages, k),
    ensures
        exists|i: int|
            0 <= i < list.len() && (#[trigger] list[i]).name == packages[k].name && list[i].version
                == Ok::<_, dependencies::VersionFault>(packages[k].version),
{
    selected_packages_are_dependencies(list, packages, package_name, k);
    let i = choose|i: int|
        0 <= i < list.len() && names::canonical(#[trigger] list[i].name) == names::canonical(
            packages[k].name,
        );
    listed_versions_are_selected(list, packages, package_name, i);
    let other = choose|other: int|
        0 <= other < packages.len() && list[i].name == (#[trigger] packages[other]).name
            && list[i].version == Ok::<_, dependencies::VersionFault>(packages[other].version)
            && is_last_of_name(packages, other);
    if other < k {
        assert(names::canonical(packages[k].name) != names::canonical(packages[other].name));
    } else if k < other {
        assert(names::canonical(packages[other].name) != names::canonical(packages[k].name));
    }
    assert(list[i].name == packages[k].name);
}

/// Dependencies are listed in the order of their canonical names.
pub proof fn dependencies_are_ordered(
    list: Seq<dependencies::DependencyView>,
    packages: Seq<PackageView>,
    package_name: Seq<char>,
    i: int,
    j: int,
)
    requires
        lists_dependencies(list, packages, package_name),
        0 <= i < j < list.len(),
    ensures
        text::precedes(names::canonical(list[i].name), names::canonical(list[j].name)),
{
    let keys = canonical_names(list);
    assert(text::precedes(keys[i], keys[j]));
}

/// What is found for a package is what its report says: the version of the target, the
/// registry, and the other packages with the versions that pip selected.
pub proof fn resolution_is_what_pip_selected(
    found: PackageDependencies,
    report: json::JsonTree,
    report_path: Seq<char>,
    entries: Seq<json::JsonTree>,
    packages: Seq<PackageView>,
    package_name: Seq<char>,
    fallback: Option<Seq<char>>,
)
    requires
        json::has_member(report, "install"@, json::JsonTree::Array(entries)),
        entries.len() == packages.len(),
        forall|i: int| 0 <= i < entries.len() ==> writes_package(#[trigger] entries[i], packages[i]),
        is_resolution(
            found,
            file_content(Some(Ok::<_, serde_json::Error>(report)), report_path),
            package_name,
            fallback,
        ),
    ensures
        found.registry_host_name@ == "pypi.org"@,
        found.package_version is Ok,
        forall|k: int| #[trigger]
            is_target_at(packages, package_name, k) ==> found.package_version->Ok_0@
                == packages[k].version,
        (forall|i: int|
            0 <= i < packages.len() ==> names::canonical((#[trigger] packages[i]).name)
                != names::canonical(package_name)) ==> fallback == Some(
            found.package_version->Ok_0@,
        ),
        forall|i: int|
            0 <= i < found.dependencies@.len() ==> (#[trigger] found.dependencies@[i]).version is Ok
                && names::canonical(found.dependencies@[i].name@) != names::canonical(package_name)
                && exists|k: int|
                0 <= k < packages.len() && (#[trigger] packages[k]).name
                    == found.dependencies@[i].name@ && packages[k].version
                    == found.dependencies@[i].version->Ok_0@ && is_last_of_name(packages, k),
        forall|k: int|
            0 <= k < packages.len() && names::canonical((#[trigger] packages[k]).name)
                != names::canonical(package_name) && is_last_of_name(packages, k) ==> exists|i: int|
                0 <= i < found.dependencies@.len() && (#[trigger] found.dependencies@[i]).name@
                    == packages[k].name && found.dependencies@[i].version is Ok
                    && found.dependencies@[i].version->Ok_0@ == packages[k].version,
        forall|i: int, j: int|
            0 <= i < j < found.dependencies@.len() ==> text::precedes(
                names::canonical((#[trigger] found.dependencies@[i]).name@),
                names::canonical((#[trigger] found.dependencies@[j]).name@),
            ),
{
    reports_list_all_entries(report, entries, packages);
    let list = dependencies::dependency_views(found.dependencies@);
    assert forall|k: int| #[trigger]
        is_target_at(packages, package_name, k) implies found.package_version->Ok_0@
        == packages[k].version by {
        the_first_of_the_name_is_the_target(packages, package_name, fallback, k);
    }
    the_first_of_the_name_is_the_target(packages, package_name, fallback, 0);
    assert forall|i: int| 0 <= i < found.dependencies@.len() implies (
    #[trigger] found.dependencies@[i]).version is Ok && names::canonical(
        found.dependencies@[i].name@,
    ) != names::canonical(package_name) && exists|k: int|
        0 <= k < packages.len() && (#[trigger] packages[k]).name == found.dependencies@[i].name@
            && packages[k].version == found.dependencies@[i].version->Ok_0@ && is_last_of_name(
            packages,
            k,
        ) by {
        assert(list[i] == found.dependencies@[i]@);
        target_is_no_dependency(list, packages, package_name, i);
        listed_versions_are_selected(list, packages, package_name, i);
        let k = choose|k: int|
            0 <= k < packages.len() && list[i].name == (#[trigger] packages[k]).name
                && list[i].version == Ok::<_, dependencies::VersionFault>(packages[k].version)
                && is_last_of_name(packages, k);
        assert(packages[k].name == found.dependencies@[i].name@);
    }
    assert forall|k: int|
        0 <= k < packages.len() && names::canonical((#[trigger] packages[k]).name)
            != names::canonical(package_name) && is_last_of_name(packages, k) implies exists|i: int|
        0 <= i < found.dependencies@.len() && (#[trigger] found.dependencies@[i]).name@
            == packages[k].name && found.dependencies@[i].version is Ok
            && found.dependencies@[i].version->Ok_0@ == packages[k].version by {
        selected_versions_are_listed(list, packages, package_name, k);
        let i = choose|i: int|
            0 <= i < list.len() && (#[trigger] list[i]).name == packages[k].name && list[i].version
                == Ok::<_, dependencies::VersionFault>(packages[k].version);
        assert(list[i] == found.dependencies@[i]@);
        assert(found.dependencies@[i].name@ == packages[k].name);
    }
    assert forall|i: int, j: int| 0 <= i < j < found.dependencies@.len() implies text::precedes(
        names::canonical((#[trigger] found.dependencies@[i]).name@),
        names::canonical((#[trigger] found.dependencies@[j]).name@),
    ) by {
        dependencies_are_ordered(list, packages, package_name, i, j);
        assert(list[i] == found.dependencies@[i]@);
        assert(list[j] == found.dependencies@[j]@);
    }
}

/// A report with packages alone fails only where neither a package of the name nor a
/// version from the caller is there. A report with a fault fails with that fault.
pub proof fn resolutions_fail_for_want_of_the_target(
    packages: Seq<PackageView>,
    package_name: Seq<char>,
    fallback: Option<Seq<char>>,
    fault: ReportFault,
)
    ensures
        dependencies_fault(ReportContent::Packages(packages), package_name, fallback) == (
        if fallback is None && forall|i: int|
            0 <= i < packages.len() ==> names::canonical((#[trigger] packages[i]).name)
                != names::canonical(package_name) {
            Some(ReportFault::TargetMissing)
        } else {
            None
        }),
        dependencies_fault(ReportContent::Fault(fault), package_name, fallback) == Some(fault),
        dependencies_fault(ReportContent::Incomplete, package_name, fallback) is None,
{
    if exists|i: int|
        0 <= i < packages.len() && names::canonical((#[trigger] packages[i]).name)
            == names::canonical(package_name) {
        let k = choose|i: int|
            0 <= i < packages.len() && names::canonical((#[trigger] packages[i]).name)
                == names::canonical(package_name);
        selected_version_comes_first(packages, package_name, fallback, k);
    } else {
        the_first_of_the_name_is_the_target(packages, package_name, fallback, 0);
    }
}

/// A report file that was read holds what its text says. One that was not read, or
/// whose text is not JSON, is faulty.
pub proof fn report_files_hold_their_text(
    report: json::JsonTree,
    error: serde_json::Error,
    report_path: Seq<char>,
    text: &str,
)
    ensures
        file_content(Some(Ok::<_, serde_json::Error>(report)), report_path) == report_content(
            report,
        ),
        file_content(Some(Err::<json::JsonTree, _>(error)), report_path) == ReportContent::Fault(
            ReportFault::NotJson(error),
        ),
        file_content(None, report_path) == ReportContent::Fault(ReportFault::NotRead(report_path)),
        optional_json(Some(text)) == Some(json::read_text(text@)),
        optional_json(None) is None,
{
}

/// The messages of faulty reports.
pub proof fn report_messages(report_path: Seq<char>, error: serde_json::Error)
    ensures
        ReportFault::NotRead(report_path).message() == "Failed to read pip resolver report: "@
            + report_path,
        ReportFault::NotJson(error).message() == "Failed to parse pip resolver report."@,
        ReportFault::InstallSection.message() == "Failed to parse pip report install section."@,
        ReportFault::MetadataSection.message() == "Failed to parse pip report metadata section."@,
        ReportFault::PackageName.message() == "Failed to parse pip report package name."@,
        ReportFault::PackageVersion.message() == "Failed to parse pip report package version."@,
        ReportFault::TargetMissing.message()
            == "Failed to find target package in pip resolver report."@,
{
}

/// An error stands for the fault of its own kind, with what it carries.
pub proof fn report_errors_stand_for_their_faults(error: ReportError, reading: ReportReading)
    ensures
        match error {
            ReportError::NotRead { report_path } => error@ == ReportFault::NotRead(report_path@),
            ReportError::NotJson(source) => error@ == ReportFault::NotJson(source),
            ReportError::InstallSection => error@ is InstallSection,
            ReportError::MetadataSection => error@ is MetadataSection,
            ReportError::PackageName => error@ is PackageName,
            ReportError::PackageVersion => error@ is PackageVersion,
            ReportError::TargetMissing => error@ is TargetMissing,
        },
        match reading {
            ReportReading::Packages(packages) => reading@ == ReportContent::Packages(
                package_views(packages@),
            ),
            ReportReading::Fault(fault) => reading@ == ReportContent::Fault(fault@),
            ReportReading::Incomplete => reading@ is Incomplete,
        },
{
}

/// Only a report whose entries are all packages gives dependencies, and only where
/// nothing is wrong with it.
pub proof fn faulty_reports_give_no_dependencies(
    found: PackageDependencies,
    content: ReportContent,
    package_name: Seq<char>,
    fallback: Option<Seq<char>>,
)
    requires
        is_resolution(found, content, package_name, fallback),
    ensures
        content is Packages,
        dependencies_fault(content, package_name, fallback) is None,
        fallback is None ==> exists|k: int|
            0 <= k < content->Packages_0.len() && names::canonical(
                (#[trigger] content->Packages_0[k]).name,
            ) == names::canonical(package_name),
{
    let packages = content->Packages_0;
    if fallback is None && forall|k: int|
        0 <= k < packages.len() ==> names::canonical((#[trigger] packages[k]).name)
            != names::canonical(package_name) {
        the_first_of_the_name_is_the_target(packages, package_name, fallback, 0);
    }
}

} // verus!
