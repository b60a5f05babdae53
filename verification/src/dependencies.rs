//! Dependencies of packages.
use vstd::prelude::*;

verus! {

/// Why a dependency has no version.
#[derive(Debug, PartialEq, Eq)]
pub enum VersionError {
    /// The version is missing.
    Missing,
    /// The version is not written as one.
    Unparsable(String),
}

/// The view of a [`VersionError`].
pub enum VersionFault {
    Missing,
    Unparsable(Seq<char>),
}

impl View for VersionError {
    type V = VersionFault;

    open spec fn view(&self) -> VersionFault {
        match self {
            VersionError::Missing => VersionFault::Missing,
            VersionError::Unparsable(version) => VersionFault::Unparsable(version@),
        }
    }
}

/// What a version, or the lack of one, stands for.
pub open spec fn version_view(version: Result<String, VersionError>) -> Result<
    Seq<char>,
    VersionFault,
> {
    match version {
        Ok(version) => Ok(version@),
        Err(error) => Err(error@),
    }
}

/// A package that another one depends on.
#[derive(Debug, PartialEq, Eq)]
pub struct Dependency {
    pub name: String,
    pub version: Result<String, VersionError>,
}

/// The view of a [`Dependency`].
pub struct DependencyView {
    pub name: Seq<char>,
    pub version: Result<Seq<char>, VersionFault>,
}

impl View for Dependency {
    type V = DependencyView;

    open spec fn view(&self) -> DependencyView {
        DependencyView { name: self.name@, version: version_view(self.version) }
    }
}

/// What a list of dependencies stands for.
pub open spec fn dependency_views(dependencies: Seq<Dependency>) -> Seq<DependencyView> {
    Seq::new(dependencies.len(), |i: int| dependencies[i]@)
}

/// The dependencies of a package, found through a registry.
#[derive(Debug, PartialEq, Eq)]
pub struct PackageDependencies {
    /// The version of the package itself.
    pub package_version: Result<String, VersionError>,
    /// The host name of the registry that owns the dependencies.
    pub registry_host_name: String,
    pub dependencies: Vec<Dependency>,
}

/// A dependency stands for its own name and version, and a list of dependencies for
/// its elements in their order.
pub proof fn dependencies_stand_for_themselves(dependencies: Seq<Dependency>, i: int)
    ensures
        dependency_views(dependencies).len() == dependencies.len(),
        0 <= i < dependencies.len() ==> dependency_views(dependencies)[i].name
            == dependencies[i].name@,
        0 <= i < dependencies.len() ==> match dependencies[i].version {
            Ok(version) => dependency_views(dependencies)[i].version == Ok::<_, VersionFault>(
                version@,
            ),
            Err(VersionError::Missing) => dependency_views(dependencies)[i].version == Err::<
                Seq<char>,
                _,
            >(VersionFault::Missing),
            Err(VersionError::Unparsable(text)) => dependency_views(dependencies)[i].version
                == Err::<Seq<char>, _>(VersionFault::Unparsable(text@)),
        },
{
}

} // verus!
