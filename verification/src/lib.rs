//! Python packages for Thirdpass: dependency discovery through pip and
//! Pipfile.lock, and package metadata from the PyPI registry.
pub mod dependencies;
pub mod dependency_file;
pub mod extension;
pub mod guarantees;
pub mod json;
pub mod names;
pub mod pipfile;
pub mod registry;
pub mod report;
pub mod resolver;
pub mod text;
pub mod version;

pub use dependency_file::DependencyFileType;
pub use extension::PyExtension;
