use thirdpass_py_lib::dependencies::{Dependency, VersionError};
use thirdpass_py_lib::dependency_file::{
    file_defined_dependencies, DependencyFile, DependencyFileError, DependencyFileSearch,
    DependencyFileType, FoundFile, SearchStep,
};
use thirdpass_py_lib::extension::PyExtension;
use thirdpass_py_lib::json::Json;
use thirdpass_py_lib::pipfile::{
    dependencies_from_lock, get_dependencies, get_registry_host_name, PipfileError,
};

/// Search upwards through directories that hold the given file names.
fn search(directories: &[Vec<&str>]) -> Option<Vec<DependencyFile>> {
    let mut state = DependencyFileSearch::new(directories.len() - 1);
    loop {
        let present: Vec<bool> = DependencyFileType::all()
            .iter()
            .map(|file_type| directories[state.level].contains(&file_type.file_name().as_str()))
            .collect();
        match state.look(&present) {
            SearchStep::Found(files) => return Some(files),
            SearchStep::NotFound => return None,
            SearchStep::GoUp(next) => state = next,
        }
    }
}

fn pinned(name: &str, version: &str) -> Dependency {
    Dependency {
        name: name.to_string(),
        version: Ok(version.to_string()),
    }
}

fn found_file(level: usize, text: Option<&str>) -> FoundFile {
    FoundFile {
        file: DependencyFile {
            file_type: DependencyFileType::PipfileLock,
            level,
        },
        text: text.map(|text| text.to_string()),
    }
}

#[test]
fn file_defined_dependencies_parse_pipfile_lock_from_child_directory() {
    let package = vec![];
    let src = vec!["package"];
    let project = vec!["src", "Pipfile.lock"];
    let root = vec!["project"];
    let files = search(&[package, src, project, root]);
    let lock = r#"{
        "_meta": {},
        "default": {
            "requests": {
                "version": "==2.32.3"
            }
        },
        "develop": {
            "pytest": {
                "version": "==8.3.4"
            }
        }
    }"#;

    let found = files.map(|files| {
        files
            .into_iter()
            .map(|file| found_file(file.level, Some(lock)))
            .collect()
    });
    let extension = PyExtension::new();
    let extension_args = Vec::new();
    let groups = extension
        .identify_file_defined_dependencies(&found, &extension_args)
        .unwrap();

    assert_eq!(groups.len(), 1);
    assert_eq!(
        groups[0].file,
        DependencyFile {
            file_type: DependencyFileType::PipfileLock,
            level: 2
        }
    );
    assert_eq!(groups[0].registry_host_name, "pypi.org");
    assert!(groups[0].dependencies.contains(&pinned("requests", "2.32.3")));
    assert!(groups[0].dependencies.contains(&pinned("pytest", "8.3.4")));
}

#[test]
fn the_nearest_directory_counts() {
    let files = search(&[vec!["Pipfile.lock"], vec!["Pipfile.lock"]]).unwrap();
    assert_eq!(files.len(), 1);
    assert_eq!(files[0].level, 0);
    let files = search(&[vec!["Pipfile"], vec!["a"], vec!["Pipfile.lock"]]).unwrap();
    assert_eq!(files[0].level, 2);
}

#[test]
fn the_search_ends_at_the_root() {
    assert_eq!(search(&[vec!["a"], vec!["b"]]), None);
    assert_eq!(search(&[vec![]]), None);
    assert_eq!(
        DependencyFileSearch::new(3).look(&vec![false]),
        SearchStep::GoUp(DependencyFileSearch { above: 3, level: 1 })
    );
}

#[test]
fn no_file_gives_no_dependencies() {
    let extension = PyExtension::new();
    for arguments in [vec![], vec!["--pre".to_string()]] {
        let groups = extension.identify_file_defined_dependencies(&None, &arguments);
        assert_eq!(groups.unwrap(), vec![]);
        let groups = extension.identify_file_defined_dependencies(&Some(vec![]), &arguments);
        assert_eq!(groups.unwrap(), vec![]);
    }
}

#[test]
fn each_file_gives_one_group() {
    let first = r#"{"default": {"a": {"version": "==1"}}, "develop": {}}"#;
    let second = r#"{"default": {}, "develop": {"b": {"version": "==2"}}}"#;
    let found = Some(vec![found_file(4, Some(first)), found_file(3, Some(second))]);
    let groups = PyExtension::new()
        .identify_file_defined_dependencies(&found, &[])
        .unwrap();
    assert_eq!(groups.len(), 2);
    assert_eq!(groups[0].file.level, 4);
    assert_eq!(groups[0].dependencies, vec![pinned("a", "1")]);
    assert_eq!(groups[1].file.level, 3);
    assert_eq!(groups[1].dependencies, vec![pinned("b", "2")]);
    let alone = file_defined_dependencies(groups[1].file, second).unwrap();
    assert_eq!(alone, groups[1]);
}

#[test]
fn one_bad_file_makes_an_error() {
    let good = r#"{"default": {}, "develop": {}}"#;
    let error_of = |texts: [Option<&str>; 3]| {
        let found = texts
            .iter()
            .enumerate()
            .map(|(level, text)| found_file(level, *text))
            .collect();
        PyExtension::new()
            .identify_file_defined_dependencies(&Some(found), &[])
            .unwrap_err()
    };
    assert!(matches!(
        error_of([Some(good), Some("{"), None]),
        DependencyFileError::Pipfile(PipfileError::NotJson(_))
    ));
    assert!(matches!(
        error_of([Some(good), None, Some("{}")]),
        DependencyFileError::NotRead { file } if file.level == 1
    ));
    assert!(matches!(
        error_of([Some(good), Some(good), Some("{}")]),
        DependencyFileError::Pipfile(PipfileError::Section { section }) if section == "default"
    ));
}

#[test]
fn file_names_belong_to_their_types() {
    assert_eq!(DependencyFileType::PipfileLock.file_name(), "Pipfile.lock");
    assert_eq!(
        DependencyFileType::all(),
        vec![DependencyFileType::PipfileLock]
    );
    assert_eq!(get_registry_host_name(), "pypi.org");
}

#[test]
fn lock_files_without_pins_give_no_version() {
    let lock = Json::parse(
        r#"{"default": {"a": {"version": "==1"}, "b": {"git": "x"}, "c": {"version": ">=2"}},
            "develop": {"a": {"version": "==1"}, "b": {"version": "==3"}}}"#,
    )
    .unwrap();
    assert_eq!(
        dependencies_from_lock(&lock).unwrap(),
        vec![
            pinned("a", "1"),
            Dependency {
                name: "b".to_string(),
                version: Err(VersionError::Missing)
            },
            Dependency {
                name: "c".to_string(),
                version: Err(VersionError::Unparsable(">=2".to_string()))
            },
            pinned("b", "3"),
        ]
    );
}

#[test]
fn malformed_lock_files_are_rejected() {
    let error = get_dependencies("[").unwrap_err();
    assert!(matches!(error, PipfileError::NotJson(_)));
    assert_eq!(error.message(), "Failed to parse Pipfile.lock.");

    let error = get_dependencies(r#"{"default": {}}"#).unwrap_err();
    assert!(matches!(&error, PipfileError::Section { section } if section == "develop"));
    assert_eq!(
        error.message(),
        "Failed to parse Pipfile.lock section: develop"
    );

    let error = get_dependencies(r#"{"default": [], "develop": 1}"#).unwrap_err();
    assert!(matches!(&error, PipfileError::Section { section } if section == "default"));
}
