//! Pipfile.lock.
use vstd::prelude::*;

use crate::dependencies::{Dependency, VersionError};
use crate::json::{Json, Member};
use crate::{dependencies, json, text};

verus! {

/// The host name of the registry that Python packages come from.
pub fn get_registry_host_name() -> (result: String)
    ensures
        result@ == "pypi.org"@,
{
    "pypi.org".to_owned()
}

/// Why a Pipfile.lock does not give dependencies.
#[derive(Debug)]
pub enum PipfileError {
    /// The file is not JSON.
    NotJson(serde_json::Error),
    /// A section of dependencies is missing or is not an object.
    Section { section: String },
}

/// The view of a [`PipfileError`].
pub enum PipfileFault {
    NotJson(serde_json::Error),
    Section(Seq<char>),
}

impl View for PipfileError {
    type V = PipfileFault;

    open spec fn view(&self) -> PipfileFault {
        match self {
            PipfileError::NotJson(error) => PipfileFault::NotJson(*error),
            PipfileError::Section { section } => PipfileFault::Section(section@),
        }
    }
}

impl PipfileFault {
    /// The message of a Pipfile.lock error.
    pub open spec fn message(self) -> Seq<char> {
        match self {
            PipfileFault::NotJson(_) => "Failed to parse Pipfile.lock."@,
            PipfileFault::Section(section) => "Failed to parse Pipfile.lock section: "@ + section,
        }
    }
}

impl PipfileError {
    /// The message of this error.
    pub fn message(&self) -> (result: String)
        ensures
            result@ == self@.message(),
    {
        match self {
            PipfileError::NotJson(_) => "Failed to parse Pipfile.lock.".to_owned(),
            PipfileError::Section { section } => {
                let mut message = "Failed to parse Pipfile.lock section: ".to_owned();
                message.append(section.as_str());
                message
            },
        }
    }
}

/// The version that an entry pins its package to. A pin is `==` and the version.
pub open spec fn pinned_version(entry: json::JsonTree) -> Result<
    Seq<char>,
    dependencies::VersionFault,
> {
    match entry.member_text("version"@) {
        None => Err(dependencies::VersionFault::Missing),
        Some(pin) => if text::has_prefix(pin, "=="@) {
            Ok(pin.skip("=="@.len() as int))
        } else {
            Err(dependencies::VersionFault::Unparsable(pin))
        },
    }
}

/// The dependency that a member of a section stands for.
pub open spec fn member_dependency(
    member: (Seq<char>, json::JsonTree),
) -> dependencies::DependencyView {
    dependencies::DependencyView { name: member.0, version: pinned_version(member.1) }
}

/// The dependencies of a section, one for each member.
pub open spec fn section_dependencies(members: Seq<(Seq<char>, json::JsonTree)>) -> Seq<
    dependencies::DependencyView,
> {
    Seq::new(members.len(), |i: int| member_dependency(members[i]))
}

/// The elements of a list, each where it occurs first.
pub open spec fn without_repeats<A>(list: Seq<A>) -> Seq<A>
    decreases list.len(),
{
    if list.len() == 0 {
        list
    } else {
        let earlier = without_repeats(list.drop_last());
        if earlier.contains(list.last()) {
            earlier
        } else {
            earlier.push(list.last())
        }
    }
}

/// The dependencies that a lock file lists: those of the default packages and then
/// those of the development packages, each once.
pub open spec fn lock_dependencies(lock: json::JsonTree) -> Result<
    Seq<dependencies::DependencyView>,
    PipfileFault,
> {
    match (lock.member("default"@), lock.member("develop"@)) {
        (
            Some(json::JsonTree::Object(default)),
            Some(json::JsonTree::Object(develop)),
        ) => Ok(without_repeats(section_dependencies(default) + section_dependencies(develop))),
        (Some(json::JsonTree::Object(_)), _) => Err(PipfileFault::Section("develop"@)),
        _ => Err(PipfileFault::Section("default"@)),
    }
}

fn read_version(entry: &Json) -> (result: Result<String, VersionError>)
    ensures
        dependencies::version_view(result) == pinned_version(entry@),
{
    match entry.member_str("version") {
        None => Err(VersionError::Missing),
        Some(pin) => if text::starts_with(pin.as_str(), "==") {
            let characters = text::characters(pin.as_str());
            proof {
                reveal_strlit("==");
            }
            let version = text::string_from(&characters, 2, characters.len());
            assert(version@ == pin@.skip(2));
            Ok(version)
        } else {
            Err(VersionError::Unparsable(pin.clone()))
        },
    }
}

fn same_version(
    left: &Result<String, VersionError>,
    right: &Result<String, VersionError>,
) -> (result: bool)
    ensures
        result == (dependencies::version_view(*left) == dependencies::version_view(*right)),
{
    match (left, right) {
        (Ok(left), Ok(right)) => *left == *right,
        (Err(VersionError::Missing), Err(VersionError::Missing)) => true,
        (Err(VersionError::Unparsable(left)), Err(VersionError::Unparsable(right))) => *left
            == *right,
        _ => false,
    }
}

fn is_listed(list: &Vec<Dependency>, dependency: &Dependency) -> (result: bool)
    ensures
        result == dependencies::dependency_views(list@).contains(dependency@),
{
    let ghost views = dependencies::dependency_views(list@);
    for i in 0..list.len()
        invariant
            views == dependencies::dependency_views(list@),
            forall|k: int| 0 <= k < i ==> #[trigger] views[k] != dependency@,
    {
        assert(views[i as int] == list@[i as int]@);
        if list[i].name == dependency.name && same_version(&list[i].version, &dependency.version) {
            return true;
        }
    }
    false
}

fn add_section(
    list: &mut Vec<Dependency>,
    members: &Vec<Member>,
    Ghost(listed): Ghost<Seq<dependencies::DependencyView>>,
)
    requires
        dependencies::dependency_views(old(list)@) == without_repeats(listed),
    ensures
        dependencies::dependency_views(final(list)@) == without_repeats(
            listed + section_dependencies(Json::Object(*members)@->Object_0),
        ),
{
    let ghost section = section_dependencies(Json::Object(*members)@->Object_0);
    assert(listed + section.take(0) == listed);
    for i in 0..members.len()
        invariant
            section == section_dependencies(Json::Object(*members)@->Object_0),
            dependencies::dependency_views(list@) == without_repeats(
                listed + section.take(i as int),
            ),
    {
        let member = &members[i];
        assert(Json::Object(*members)@->Object_0[i as int] == (member.key@, member.value@));
        let dependency = Dependency {
            name: member.key.clone(),
            version: read_version(&member.value),
        };
        assert(dependency@ == section[i as int]);
        assert((listed + section.take(i + 1)).drop_last() == listed + section.take(i as int));
        if !is_listed(list, &dependency) {
            let ghost before = dependencies::dependency_views(list@);
            list.push(dependency);
            assert(dependencies::dependency_views(list@) == before.push(dependency@));
        }
    }
    assert(section.take(section.len() as int) == section);
}

/// The dependencies that a lock file lists.
pub fn dependencies_from_lock(lock: &Json) -> (result: Result<Vec<Dependency>, PipfileError>)
    ensures
        match result {
            Ok(list) => lock_dependencies(lock@) == Ok::<_, PipfileFault>(
                dependencies::dependency_views(list@),
            ),
            Err(error) => lock_dependencies(lock@) == Err::<
                Seq<dependencies::DependencyView>,
                _,
            >(error@),
        },
{
    let default = match lock.get("default") {
        Some(Json::Object(members)) => members,
        _ => {
            return Err(PipfileError::Section { section: "default".to_owned() });
        },
    };
    let develop = match lock.get("develop") {
        Some(Json::Object(members)) => members,
        _ => {
            return Err(PipfileError::Section { section: "develop".to_owned() });
        },
    };
    let ghost default_section = section_dependencies(Json::Object(*default)@->Object_0);
    let ghost none = Seq::<dependencies::DependencyView>::empty();
    let mut list: Vec<Dependency> = Vec::new();
    assert(dependencies::dependency_views(list@) == none);
    add_section(&mut list, default, Ghost(none));
    assert(none + default_section == default_section);
    add_section(&mut list, develop, Ghost(default_section));
    Ok(list)
}

/// The dependencies that the text of a lock file lists, where `read` is what the
/// text says as JSON.
pub open spec fn text_dependencies(read: Result<json::JsonTree, serde_json::Error>) -> Result<
    Seq<dependencies::DependencyView>,
    PipfileFault,
> {
    match read {
        Ok(lock) => lock_dependencies(lock),
        Err(error) => Err(PipfileFault::NotJson(error)),
    }
}

/// The dependencies that the text of a lock file lists.
pub fn get_dependencies(lock: &str) -> (result: Result<Vec<Dependency>, PipfileError>)
    ensures
        match result {
            Ok(list) => text_dependencies(json::read_text(lock@)) == Ok::<_, PipfileFault>(
                dependencies::dependency_views(list@),
            ),
            Err(error) => text_dependencies(json::read_text(lock@)) == Err::<
                Seq<dependencies::DependencyView>,
                _,
            >(error@),
        },
{
    match Json::parse(lock) {
        Ok(lock) => dependencies_from_lock(&lock),
        Err(error) => Err(PipfileError::NotJson(error)),
    }
}

/// No element occurs twice in a list without repeats, and none is lost.
pub proof fn without_repeats_keeps_each_once<A>(list: Seq<A>)
    ensures
        without_repeats(list).no_duplicates(),
        forall|element: A| without_repeats(list).contains(element) <==> list.contains(element),
    decreases list.len(),
{
    if list.len() > 0 {
        let earlier = without_repeats(list.drop_last());
        without_repeats_keeps_each_once(list.drop_last());
        assert(list == list.drop_last().push(list.last()));
        assert forall|element: A| without_repeats(list).contains(element) <==> list.contains(
            element,
        ) by {
            if list.contains(element) && element != list.last() {
                let i = list.index_of(element);
                assert(list.drop_last()[i] == element);
            }
            if list.drop_last().contains(element) {
                assert(list[list.drop_last().index_of(element)] == element);
            }
            assert(list[list.len() - 1] == list.last());
            if !earlier.contains(list.last()) {
                let longer = earlier.push(list.last());
                assert(longer[earlier.len() as int] == list.last());
                if earlier.contains(element) {
                    assert(longer[earlier.index_of(element)] == element);
                }
                if longer.contains(element) && element != list.last() {
                    let i = longer.index_of(element);
                    assert(earlier[i] == element);
                }
            }
        }
    }
}

/// The version of a pin is the whole text behind `==`. Another text is no pin, and
/// without a text there is no version.
pub proof fn pins_give_their_version(entry: json::JsonTree, pin: Seq<char>, value: json::JsonTree)
    ensures
        json::has_member(entry, "version"@, json::JsonTree::Text("=="@ + pin)) ==> pinned_version(
            entry,
        ) == Ok::<_, dependencies::VersionFault>(pin),
        json::has_member(entry, "version"@, json::JsonTree::Text(pin)) && !(pin.len() >= 2 && pin[0]
            == '=' && pin[1] == '=') ==> pinned_version(entry) == Err::<Seq<char>, _>(
            dependencies::VersionFault::Unparsable(pin),
        ),
        json::has_member(entry, "version"@, value) && !(value is Text) ==> pinned_version(entry)
            == Err::<Seq<char>, _>(dependencies::VersionFault::Missing),
        json::lacks_member(entry, "version"@) ==> pinned_version(entry) == Err::<Seq<char>, _>(
            dependencies::VersionFault::Missing,
        ),
{
    reveal_strlit("==");
    let whole = "=="@ + pin;
    json::member_texts_are_found(entry, "version"@, whole);
    json::member_texts_are_found(entry, "version"@, pin);
    json::members_are_found(entry, "version"@, value);
    text::prefix_has_a_rest(whole, "=="@, pin);
    assert(whole.skip(2) == pin);
    text::prefix_has_a_rest(pin, "=="@, pin);
}

/// A list without repeats starts with what its start gives.
pub proof fn without_repeats_keeps_the_start<A>(list: Seq<A>, more: Seq<A>)
    ensures
        without_repeats(list + more).len() >= without_repeats(list).len(),
        without_repeats(list + more).take(without_repeats(list).len() as int) == without_repeats(
            list,
        ),
    decreases more.len(),
{
    let start = without_repeats(list);
    if more.len() == 0 {
        assert(list + more == list);
        assert(start.take(start.len() as int) == start);
    } else {
        without_repeats_keeps_the_start(list, more.drop_last());
        assert((list + more).drop_last() == list + more.drop_last());
        let earlier = without_repeats(list + more.drop_last());
        assert(earlier.push((list + more).last()).take(start.len() as int) == earlier.take(
            start.len() as int,
        ));
    }
}

/// A list in which nothing is repeated stays as it is.
pub proof fn without_repeats_changes_nothing_else<A>(list: Seq<A>)
    requires
        list.no_duplicates(),
    ensures
        without_repeats(list) == list,
    decreases list.len(),
{
    if list.len() > 0 {
        let shorter = list.drop_last();
        assert(shorter.no_duplicates());
        without_repeats_changes_nothing_else(shorter);
        if shorter.contains(list.last()) {
            let i = shorter.index_of(list.last());
            assert(list[i] == list[list.len() - 1]);
        }
        assert(shorter.push(list.last()) == list);
    }
}

/// Whether a dependency is what a member of a section says: the key is its name, and
/// the value pins its version.
pub open spec fn is_member_dependency(
    dependency: dependencies::DependencyView,
    member: (Seq<char>, json::JsonTree),
) -> bool {
    dependency.name == member.0 && dependency.version == pinned_version(member.1)
}

/// A lock file lists one dependency for each member of `default` and then one for each
/// member of `develop`, under the names of the members and with their pins, each where
/// it occurs first.
pub proof fn locks_list_both_sections(
    lock: json::JsonTree,
    default: Seq<(Seq<char>, json::JsonTree)>,
    develop: Seq<(Seq<char>, json::JsonTree)>,
    all: Seq<dependencies::DependencyView>,
)
    requires
        json::has_member(lock, "default"@, json::JsonTree::Object(default)),
        json::has_member(lock, "develop"@, json::JsonTree::Object(develop)),
        all.len() == default.len() + develop.len(),
        forall|i: int| 0 <= i < default.len() ==> is_member_dependency(#[trigger] all[i], default[i]),
        forall|i: int|
            0 <= i < develop.len() ==> is_member_dependency(
                all[default.len() + i],
                #[trigger] develop[i],
            ),
    ensures
        lock_dependencies(lock) == Ok::<_, PipfileFault>(without_repeats(all)),
{
    json::members_are_found(lock, "default"@, json::JsonTree::Object(default));
    json::members_are_found(lock, "develop"@, json::JsonTree::Object(develop));
    let sections = section_dependencies(default) + section_dependencies(develop);
    assert forall|i: int| 0 <= i < all.len() implies all[i] == sections[i] by {
        if i < default.len() {
            assert(is_member_dependency(all[i], default[i]));
        } else {
            let k = i - default.len();
            assert(is_member_dependency(all[default.len() + k], develop[k]));
        }
    }
    assert(all == sections);
}

/// Every member of a section of a lock file whose version is `==` and a text is listed
/// under its key, with exactly that text as its version.
pub proof fn pinned_versions_are_listed(
    lock: json::JsonTree,
    default: Seq<(Seq<char>, json::JsonTree)>,
    develop: Seq<(Seq<char>, json::JsonTree)>,
    i: int,
    version: Seq<char>,
)
    requires
        json::has_member(lock, "default"@, json::JsonTree::Object(default)),
        json::has_member(lock, "develop"@, json::JsonTree::Object(develop)),
        0 <= i < default.len() + develop.len(),
        json::has_member(
            (default + develop)[i].1,
            "version"@,
            json::JsonTree::Text("=="@ + version),
        ),
    ensures
        lock_dependencies(lock) is Ok,
        exists|k: int|
            0 <= k < lock_dependencies(lock)->Ok_0.len() && (
            #[trigger] lock_dependencies(lock)->Ok_0[k]).name == (default + develop)[i].0
                && lock_dependencies(lock)->Ok_0[k].version == Ok::<_, dependencies::VersionFault>(
                version,
            ),
{
    let all = section_dependencies(default) + section_dependencies(develop);
    locks_list_both_sections(lock, default, develop, all);
    pins_give_their_version((default + develop)[i].1, version, json::JsonTree::Null);
    without_repeats_keeps_each_once(all);
    assert(all.contains(all[i]));
    let list = without_repeats(all);
    let k = list.index_of(all[i]);
    assert(lock_dependencies(lock)->Ok_0[k].name == (default + develop)[i].0);
}

/// A lock file without an object under `default` is faulty for that section, and else
/// one without an object under `develop` for that one.
pub proof fn locks_have_both_sections(
    lock: json::JsonTree,
    default: Seq<(Seq<char>, json::JsonTree)>,
    value: json::JsonTree,
)
    ensures
        json::lacks_member(lock, "default"@) || (json::has_member(lock, "default"@, value) && !(
        value is Object)) ==> lock_dependencies(lock) == Err::<
            Seq<dependencies::DependencyView>,
            _,
        >(PipfileFault::Section("default"@)),
        json::has_member(lock, "default"@, json::JsonTree::Object(default)) && (json::lacks_member(
            lock,
            "develop"@,
        ) || (json::has_member(lock, "develop"@, value) && !(value is Object)))
            ==> lock_dependencies(lock) == Err::<Seq<dependencies::DependencyView>, _>(
            PipfileFault::Section("develop"@),
        ),
{
    json::members_are_found(lock, "default"@, value);
    json::members_are_found(lock, "develop"@, value);
    json::members_are_found(lock, "default"@, json::JsonTree::Object(default));
}

/// The text of a lock file lists what it says as JSON, and a text that is not JSON
/// lists nothing.
pub proof fn lock_texts_list_what_they_say(lock: json::JsonTree, error: serde_json::Error)
    ensures
        text_dependencies(Ok(lock)) == lock_dependencies(lock),
        text_dependencies(Err(error)) == Err::<Seq<dependencies::DependencyView>, _>(
            PipfileFault::NotJson(error),
        ),
{
}

/// An error stands for the fault of its own kind, with what it carries, and says so.
pub proof fn pipfile_errors_stand_for_their_faults(error: PipfileError)
    ensures
        match error {
            PipfileError::NotJson(source) => error@ == PipfileFault::NotJson(source)
                && error@.message() == "Failed to parse Pipfile.lock."@,
            PipfileError::Section { section } => error@ == PipfileFault::Section(section@)
                && error@.message() == "Failed to parse Pipfile.lock section: "@ + section@,
        },
{
}

} // verus!
