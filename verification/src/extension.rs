//! The Python extension.
use vstd::prelude::*;

use crate::dependency_file::{DependencyFileError, FileDefinedDependencies, FoundFile};
use crate::json::Json;
use crate::registry::RegistryError;
use crate::{dependency_file, json, registry, text, version};

verus! {

/// The extension for Python packages.
#[derive(Debug)]
pub struct PyExtension {
    name_: String,
    registry_host_names_: Vec<String>,
    registry_human_url_template_: String,
}

/// `thirdpass_core::extension::ReviewTargetPolicy`, which says which files are left
/// out of a review.
#[verifier::external_type_specification]
#[verifier::external_body]
pub struct ExternalReviewTargetPolicy(thirdpass_core::extension::ReviewTargetPolicy);

/// The paths that a `ReviewTargetPolicy` excludes.
pub uninterp spec fn excluded_paths(policy: thirdpass_core::extension::ReviewTargetPolicy) -> Seq<
    Seq<char>,
>;

/// `ReviewTargetPolicy::default` excludes no path.
#[verifier::external_body]
fn default_policy() -> (result: thirdpass_core::extension::ReviewTargetPolicy)
    ensures
        excluded_paths(result) == Seq::<Seq<char>>::empty(),
{
    thirdpass_core::extension::ReviewTargetPolicy::default()
}

/// What a registry says of a package.
#[derive(Debug, PartialEq, Eq)]
pub struct RegistryPackageMetadata {
    pub registry_host_name: String,
    /// The URL of the package's page.
    pub human_url: String,
    /// The URL of the package's source archive.
    pub artifact_url: String,
    pub is_primary: bool,
    pub package_version: String,
}

/// The view of a [`RegistryPackageMetadata`].
pub struct MetadataView {
    pub registry_host_name: Seq<char>,
    pub human_url: Seq<char>,
    pub artifact_url: Seq<char>,
    pub is_primary: bool,
    pub package_version: Seq<char>,
}

impl View for RegistryPackageMetadata {
    type V = MetadataView;

    open spec fn view(&self) -> MetadataView {
        MetadataView {
            registry_host_name: self.registry_host_name@,
            human_url: self.human_url@,
            artifact_url: self.artifact_url@,
            is_primary: self.is_primary,
            package_version: self.package_version@,
        }
    }
}

/// What a list of metadata stands for.
pub open spec fn metadata_views(list: Seq<RegistryPackageMetadata>) -> Seq<MetadataView> {
    Seq::new(list.len(), |i: int| list[i]@)
}

/// The metadata with the given URLs and version.
pub open spec fn metadata_of(
    human_url: Seq<char>,
    artifact_url: Seq<char>,
    package_version: Seq<char>,
) -> MetadataView {
    MetadataView {
        registry_host_name: "pypi.org"@,
        human_url,
        artifact_url,
        is_primary: true,
        package_version,
    }
}

/// The metadata of a version of a package, from its entry in the registry. The
/// source archive is looked for first.
pub open spec fn entry_metadata(
    package_name: Seq<char>,
    package_version: Seq<char>,
    entry: json::JsonTree,
) -> Result<Seq<MetadataView>, registry::RegistryFault> {
    match registry::archive_url(entry, package_version) {
        Err(fault) => Err(fault),
        Ok(artifact_url) => match registry::normal_url(
            registry::human_url_text(package_name, package_version),
        ) {
            Err(fault) => Err(fault),
            Ok(human_url) => Ok(seq![metadata_of(human_url, artifact_url, package_version)]),
        },
    }
}

/// What a registry entry is fetched for.
#[derive(Debug, PartialEq, Eq)]
pub enum FetchPurpose {
    /// To find the latest version.
    LatestVersion,
    /// To find the metadata of a version.
    Metadata { version: String },
}

/// The view of a [`FetchPurpose`].
pub enum PurposeView {
    LatestVersion,
    Metadata(Seq<char>),
}

impl View for FetchPurpose {
    type V = PurposeView;

    open spec fn view(&self) -> PurposeView {
        match self {
            FetchPurpose::LatestVersion => PurposeView::LatestVersion,
            FetchPurpose::Metadata { version } => PurposeView::Metadata(version@),
        }
    }
}

/// What to do next to find the metadata of a package.
#[derive(Debug, PartialEq, Eq)]
pub enum MetadataStep {
    /// Fetch what the URL names.
    Fetch { url: String, purpose: FetchPurpose },
    /// The metadata is found.
    Done(Vec<RegistryPackageMetadata>),
}

/// The view of a [`MetadataStep`].
pub enum StepView {
    Fetch(Seq<char>, PurposeView),
    Done(Seq<MetadataView>),
}

/// What a step stands for.
pub open spec fn step_outcome(result: Result<MetadataStep, RegistryError>) -> Result<
    StepView,
    registry::RegistryFault,
> {
    match result {
        Ok(MetadataStep::Fetch { url, purpose }) => Ok(StepView::Fetch(url@, purpose@)),
        Ok(MetadataStep::Done(metadata)) => Ok(StepView::Done(metadata_views(metadata@))),
        Err(error) => Err(error@),
    }
}

/// Whether `outcome` is what follows when a registry entry was fetched. An entry
/// that was fetched for the latest version leads to the metadata of that version.
pub open spec fn is_step_on_entry(
    outcome: Result<StepView, registry::RegistryFault>,
    package_name: Seq<char>,
    purpose: PurposeView,
    entry: json::JsonTree,
) -> bool {
    match purpose {
        PurposeView::LatestVersion => match registry::named_versions(entry) {
            None => outcome == Err::<StepView, _>(registry::RegistryFault::ReleasesMissing),
            Some(named) => {
                ||| version::names_no_version(named) && outcome == Err::<StepView, _>(
                    registry::RegistryFault::VersionMissing,
                )
                ||| exists|latest: Seq<char>| #[trigger]
                    version::is_latest(latest, named) && outcome == Ok::<
                        _,
                        registry::RegistryFault,
                    >(
                        StepView::Fetch(
                            registry::entry_url(package_name),
                            PurposeView::Metadata(latest),
                        ),
                    )
            },
        },
        PurposeView::Metadata(version) => match entry_metadata(package_name, version, entry) {
            Ok(metadata) => outcome == Ok::<_, registry::RegistryFault>(StepView::Done(metadata)),
            Err(fault) => outcome == Err::<StepView, _>(fault),
        },
    }
}

/// Whether `outcome` is what follows when the registry answered with `body`, where
/// `read` is what the answer says as JSON.
pub open spec fn is_next_step(
    outcome: Result<StepView, registry::RegistryFault>,
    package_name: Seq<char>,
    purpose: PurposeView,
    body: Seq<char>,
    read: Result<json::JsonTree, serde_json::Error>,
) -> bool {
    match read {
        Ok(entry) => is_step_on_entry(outcome, package_name, purpose, entry),
        Err(error) => outcome == Err::<StepView, _>(registry::RegistryFault::NotJson(body, error)),
    }
}

/// The view of a [`PyExtension`].
pub struct ExtensionView {
    pub name: Seq<char>,
    pub registry_host_names: Seq<Seq<char>>,
    pub registry_human_url_template: Seq<char>,
}

impl View for PyExtension {
    type V = ExtensionView;

    closed spec fn view(&self) -> ExtensionView {
        ExtensionView {
            name: self.name_@,
            registry_host_names: text::views(self.registry_host_names_@),
            registry_human_url_template: self.registry_human_url_template_@,
        }
    }
}

/// What the extension for Python packages consists of.
pub open spec fn python_extension() -> ExtensionView {
    ExtensionView {
        name: "py"@,
        registry_host_names: seq!["pypi.org"@],
        registry_human_url_template:
            "https://pypi.org/pypi/{{package_name}}/{{package_version}}/"@,
    }
}

impl Clone for PyExtension {
    fn clone(&self) -> (result: PyExtension)
        ensures
            result@ == self@,
    {
        proof {
            use_type_invariant(self);
        }
        PyExtension {
            name_: self.name_.clone(),
            registry_host_names_: text::copy_all(&self.registry_host_names_),
            registry_human_url_template_: self.registry_human_url_template_.clone(),
        }
    }
}

impl PyExtension {
    #[verifier::type_invariant]
    spec fn is_python(self) -> bool {
        self@ == python_extension()
    }

    /// The extension.
    pub fn new() -> (result: PyExtension)
        ensures
            result@ == python_extension(),
    {
        let registry_host_names_ = vec!["pypi.org".to_owned()];
        assert(text::views(registry_host_names_@) == seq!["pypi.org"@]);
        PyExtension {
            name_: "py".to_owned(),
            registry_host_names_,
            registry_human_url_template_:
                "https://pypi.org/pypi/{{package_name}}/{{package_version}}/".to_owned(),
        }
    }

    /// The short name of the extension.
    pub fn name(&self) -> (result: String)
        ensures
            result@ == "py"@,
    {
        proof {
            use_type_invariant(self);
        }
        self.name_.clone()
    }

    /// The host names of the registries that the extension knows.
    pub fn registries(&self) -> (result: Vec<String>)
        ensures
            text::views(result@) == seq!["pypi.org"@],
    {
        proof {
            use_type_invariant(self);
        }
        text::copy_all(&self.registry_host_names_)
    }

    /// Which files are left out of a review: none.
    pub fn review_target_policy(&self) -> (result: thirdpass_core::extension::ReviewTargetPolicy)
        ensures
            excluded_paths(result) == Seq::<Seq<char>>::empty(),
    {
        default_policy()
    }

    /// The dependencies that files define, from the outcome of the search for such
    /// files. No argument makes a difference.
    pub fn identify_file_defined_dependencies(
        &self,
        found: &Option<Vec<FoundFile>>,
        _extension_args: &[String],
    ) -> (result: Result<Vec<FileDefinedDependencies>, DependencyFileError>)
        ensures
            match result {
                Ok(groups) => dependency_file::search_dependencies(
                    dependency_file::read_outcome(*found),
                ) == Ok::<_, dependency_file::DependencyFileFault>(
                    dependency_file::defined_views(groups@),
                ),
                Err(error) => dependency_file::search_dependencies(
                    dependency_file::read_outcome(*found),
                ) == Err::<Seq<dependency_file::FileDependenciesView>, _>(error@),
            },
    {
        dependency_file::all_file_defined_dependencies(found)
    }

    /// The URL of a package's page at the registry, in normal form.
    pub fn get_registry_human_url(&self, package_name: &str, package_version: &str) -> (result:
        Result<String, RegistryError>)
        ensures
            registry::outcome(result) == registry::normal_url(
                registry::human_url_text(package_name@, package_version@),
            ),
    {
        proof {
            use_type_invariant(self);
            registry::human_url_template();
        }
        registry::render_human_url(
            self.registry_human_url_template_.as_str(),
            package_name,
            package_version,
        )
    }

    /// The metadata of a version of a package, from the URLs of its page and of its
    /// source archive. The extension knows one registry, which is the primary one.
    pub fn package_metadata(
        &self,
        human_url: String,
        artifact_url: String,
        package_version: &str,
    ) -> (result: Vec<RegistryPackageMetadata>)
        ensures
            metadata_views(result@) == seq![
                metadata_of(human_url@, artifact_url@, package_version@),
            ],
    {
        proof {
            use_type_invariant(self);
        }
        let ghost host_names = text::views(self.registry_host_names_@);
        assert(host_names.len() == 1 && host_names[0] == "pypi.org"@);
        let metadata = vec![
            RegistryPackageMetadata {
                registry_host_name: self.registry_host_names_[0].clone(),
                human_url,
                artifact_url,
                is_primary: true,
                package_version: package_version.to_owned(),
            },
        ];
        assert(metadata_views(metadata@) == seq![
            metadata_of(human_url@, artifact_url@, package_version@),
        ]);
        metadata
    }

    /// The metadata of a version of a package, from its entry in the registry.
    pub fn registries_package_metadata(
        &self,
        package_name: &str,
        package_version: &str,
        entry: &Json,
    ) -> (result: Result<Vec<RegistryPackageMetadata>, RegistryError>)
        ensures
            match result {
                Ok(metadata) => entry_metadata(package_name@, package_version@, entry@) == Ok::<
                    _,
                    registry::RegistryFault,
                >(metadata_views(metadata@)),
                Err(error) => entry_metadata(package_name@, package_version@, entry@) == Err::<
                    Seq<MetadataView>,
                    _,
                >(error@),
            },
    {
        let artifact_url = match registry::get_archive_url(entry, package_version) {
            Ok(artifact_url) => artifact_url,
            Err(error) => {
                return Err(error);
            },
        };
        let human_url = match self.get_registry_human_url(package_name, package_version) {
            Ok(human_url) => human_url,
            Err(error) => {
                return Err(error);
            },
        };
        Ok(self.package_metadata(human_url, artifact_url, package_version))
    }

    /// Start to ask the registry for the metadata of a package.
    pub fn metadata_start(&self, package_name: &str, package_version: Option<&str>) -> (result:
        Result<MetadataStep, RegistryError>)
        ensures
            step_outcome(result) == Ok::<_, registry::RegistryFault>(
                StepView::Fetch(
                    registry::entry_url(package_name@),
                    match package_version {
                        Some(package_version) => PurposeView::Metadata(package_version@),
                        None => PurposeView::LatestVersion,
                    },
                ),
            ),
    {
        let purpose = match package_version {
            Some(package_version) => FetchPurpose::Metadata { version: package_version.to_owned() },
            None => FetchPurpose::LatestVersion,
        };
        match registry::registry_entry_url(package_name) {
            Ok(url) => Ok(MetadataStep::Fetch { url, purpose }),
            Err(error) => Err(error),
        }
    }

    /// Go on with the registry entry that the registry answered with.
    pub fn metadata_step_on_entry(&self, package_name: &str, purpose: FetchPurpose, entry: &Json) -> (result:
        Result<MetadataStep, RegistryError>)
        ensures
            is_step_on_entry(step_outcome(result), package_name@, purpose@, entry@),
    {
        match purpose {
            FetchPurpose::LatestVersion => match registry::get_latest_version(entry) {
                Ok(Some(version)) => self.metadata_start(package_name, Some(version.as_str())),
                Ok(None) => Err(RegistryError::VersionMissing),
                Err(error) => Err(error),
            },
            FetchPurpose::Metadata { version } => {
                match self.registries_package_metadata(package_name, version.as_str(), entry) {
                    Ok(metadata) => Ok(MetadataStep::Done(metadata)),
                    Err(error) => Err(error),
                }
            },
        }
    }

    /// Go on with what the registry answered.
    pub fn metadata_step(&self, package_name: &str, purpose: FetchPurpose, body: &str) -> (result:
        Result<MetadataStep, RegistryError>)
        ensures
            is_next_step(step_outcome(result), package_name@, purpose@, body@, json::read_text(body@)),
    {
        let entry = match registry::registry_entry_from_body(body) {
            Ok(entry) => entry,
            Err(error) => {
                return Err(error);
            },
        };
        self.metadata_step_on_entry(package_name, purpose, &entry)
    }
}

/// The registry is asked at most twice, both times for the entry of the package: an
/// answer that gives the latest version leads to one more fetch, for the metadata of
/// that version, and the answer to that fetch ends the search.
pub proof fn at_most_two_fetches(
    outcome: Result<StepView, registry::RegistryFault>,
    package_name: Seq<char>,
    purpose: PurposeView,
    body: Seq<char>,
    read: Result<json::JsonTree, serde_json::Error>,
)
    requires
        is_next_step(outcome, package_name, purpose, body, read),
        outcome is Ok,
    ensures
        match purpose {
            PurposeView::LatestVersion => outcome->Ok_0 matches StepView::Fetch(
                url,
                PurposeView::Metadata(_),
            ) && url == registry::entry_url(package_name),
            PurposeView::Metadata(_) => outcome->Ok_0 is Done,
        },
{
}

/// Metadata is of the version that it was looked for, from one registry, which is
/// the primary one.
pub proof fn metadata_is_of_the_version(
    package_name: Seq<char>,
    package_version: Seq<char>,
    entry: json::JsonTree,
)
    requires
        entry_metadata(package_name, package_version, entry) is Ok,
    ensures
        entry_metadata(package_name, package_version, entry)->Ok_0.len() == 1,
        entry_metadata(package_name, package_version, entry)->Ok_0[0].package_version
            == package_version,
        entry_metadata(package_name, package_version, entry)->Ok_0[0].registry_host_name
            == "pypi.org"@,
        entry_metadata(package_name, package_version, entry)->Ok_0[0].is_primary,
{
}

/// Where no version is given and the registry answers twice alike, the version that
/// is looked for is one that the registry knows.
pub proof fn latest_version_is_known(
    package_name: Seq<char>,
    entry: json::JsonTree,
    latest: Seq<char>,
)
    requires
        registry::named_versions(entry) is Some,
        version::is_latest(latest, registry::named_versions(entry)->0),
    ensures
        !(entry_metadata(package_name, latest, entry) matches Err(
            registry::RegistryFault::ReleaseNotFound(_),
        )),
{
    registry::latest_version_has_a_release(entry, latest);
}

/// The metadata of a version is made of the URL of its source archive and the URL of
/// its page, each in normal form, and of the version itself. What hinders finding the
/// archive is told before what is wrong with the page.
pub proof fn metadata_is_made_of_both_urls(
    package_name: Seq<char>,
    package_version: Seq<char>,
    entry: json::JsonTree,
)
    ensures
        match registry::archive_url(entry, package_version) {
            Err(fault) => entry_metadata(package_name, package_version, entry) == Err::<
                Seq<MetadataView>,
                _,
            >(fault),
            Ok(artifact_url) => match registry::parsed_url(
                registry::human_url_text(package_name, package_version),
            ) {
                Err(error) => entry_metadata(package_name, package_version, entry) == Err::<
                    Seq<MetadataView>,
                    _,
                >(registry::RegistryFault::InvalidUrl(error)),
                Ok(human_url) => entry_metadata(package_name, package_version, entry) == Ok::<
                    _,
                    registry::RegistryFault,
                >(
                    seq![
                        MetadataView {
                            registry_host_name: "pypi.org"@,
                            human_url,
                            artifact_url,
                            is_primary: true,
                            package_version,
                        },
                    ],
                ),
            },
        },
{
}

/// An entry that was fetched for the latest version leads to a fetch of the same entry
/// for the metadata of that version. Without a version in it, or without releases, the
/// search fails.
pub proof fn the_latest_version_is_looked_for(
    outcome: Result<StepView, registry::RegistryFault>,
    package_name: Seq<char>,
    entry: json::JsonTree,
    latest: Seq<char>,
)
    requires
        is_step_on_entry(outcome, package_name, PurposeView::LatestVersion, entry),
    ensures
        match registry::named_versions(entry) {
            None => outcome == Err::<StepView, _>(registry::RegistryFault::ReleasesMissing),
            Some(named) => {
                &&& version::is_latest(latest, named) ==> outcome == Ok::<
                    _,
                    registry::RegistryFault,
                >(
                    StepView::Fetch(
                        registry::entry_url(package_name),
                        PurposeView::Metadata(latest),
                    ),
                )
                &&& version::names_no_version(named) ==> outcome == Err::<StepView, _>(
                    registry::RegistryFault::VersionMissing,
                )
            },
        },
{
    if let Some(named) = registry::named_versions(entry) {
        if version::is_latest(latest, named) {
            assert(!version::names_no_version(named));
            let found = choose|found: Seq<char>| #[trigger]
                version::is_latest(found, named) && outcome == Ok::<_, registry::RegistryFault>(
                    StepView::Fetch(
                        registry::entry_url(package_name),
                        PurposeView::Metadata(found),
                    ),
                );
            version::latest_is_unique(found, latest, named);
        }
    }
}

/// An entry that was fetched for the metadata of a version ends the search with that
/// metadata, or with what hinders finding it.
pub proof fn metadata_ends_the_search(
    outcome: Result<StepView, registry::RegistryFault>,
    package_name: Seq<char>,
    package_version: Seq<char>,
    entry: json::JsonTree,
)
    requires
        is_step_on_entry(outcome, package_name, PurposeView::Metadata(package_version), entry),
    ensures
        match entry_metadata(package_name, package_version, entry) {
            Ok(metadata) => outcome == Ok::<_, registry::RegistryFault>(StepView::Done(metadata)),
            Err(fault) => outcome == Err::<StepView, _>(fault),
        },
{
}

/// An answer that is JSON is gone on with as an entry, and one that is not is quoted in
/// the error.
pub proof fn answers_are_read_as_entries(
    outcome: Result<StepView, registry::RegistryFault>,
    package_name: Seq<char>,
    purpose: PurposeView,
    body: Seq<char>,
    read: Result<json::JsonTree, serde_json::Error>,
)
    requires
        is_next_step(outcome, package_name, purpose, body, read),
    ensures
        match read {
            Ok(entry) => is_step_on_entry(outcome, package_name, purpose, entry),
            Err(error) => outcome == Err::<StepView, _>(
                registry::RegistryFault::NotJson(body, error),
            ),
        },
{
}

/// Metadata stands for its own texts, lists of it for their elements in order, and a
/// step for what it says to do.
pub proof fn steps_stand_for_themselves(
    list: Seq<RegistryPackageMetadata>,
    step: MetadataStep,
    purpose: FetchPurpose,
    error: RegistryError,
)
    ensures
        metadata_views(list).len() == list.len(),
        forall|i: int|
            0 <= i < list.len() ==> (#[trigger] metadata_views(list)[i]).registry_host_name
                == list[i].registry_host_name@ && metadata_views(list)[i].human_url
                == list[i].human_url@ && metadata_views(list)[i].artifact_url
                == list[i].artifact_url@ && metadata_views(list)[i].is_primary == list[i].is_primary
                && metadata_views(list)[i].package_version == list[i].package_version@,
        match step {
            MetadataStep::Fetch { url, purpose } => step_outcome(Ok(step)) == Ok::<
                _,
                registry::RegistryFault,
            >(StepView::Fetch(url@, purpose@)),
            MetadataStep::Done(metadata) => step_outcome(Ok(step)) == Ok::<
                _,
                registry::RegistryFault,
            >(StepView::Done(metadata_views(metadata@))),
        },
        step_outcome(Err(error)) == Err::<StepView, _>(error@),
        match purpose {
            FetchPurpose::LatestVersion => purpose@ is LatestVersion,
            FetchPurpose::Metadata { version } => purpose@ == PurposeView::Metadata(version@),
        },
{
}

} // verus!
