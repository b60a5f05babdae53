use thirdpass_py_lib::extension::{
    FetchPurpose, MetadataStep, PyExtension, RegistryPackageMetadata,
};
use thirdpass_py_lib::json::Json;
use thirdpass_py_lib::registry::{
    find_source_archive, get_archive_url, get_latest_version, registry_entry_from_body,
    registry_entry_url, RegistryError,
};
use thirdpass_py_lib::version::{latest_version, release_from, Release};

fn entry(releases: &str) -> Json {
    Json::parse(&format!(r#"{{"releases": {}}}"#, releases)).unwrap()
}

fn message_of(error: RegistryError) -> String {
    error.message().unwrap()
}

#[test]
fn review_target_policy_includes_python_lockfiles() {
    let policy = PyExtension::new().review_target_policy();

    assert!(!policy.excludes_exact_path("Pipfile.lock"));
    assert!(!policy.excludes_exact_path("poetry.lock"));
    assert!(!policy.excludes_exact_path("uv.lock"));
    assert!(!policy.excludes_exact_path("pdm.lock"));
    assert!(!policy.excludes_exact_path("pyproject.toml"));
    assert!(!policy.excludes_exact_path("setup.py"));
    assert!(!policy.excludes_exact_path("requirements.txt"));
    assert!(!policy.excludes_exact_path("PKG-INFO"));
}

#[test]
fn the_extension_knows_its_name_and_registry() {
    let extension = PyExtension::new().clone();
    assert_eq!(extension.name(), "py");
    assert_eq!(extension.registries(), vec!["pypi.org"]);
}

#[test]
fn latest_version_is_the_greatest() {
    let latest = |releases: &str| get_latest_version(&entry(releases)).unwrap();
    assert_eq!(
        latest(r#"{"1.9.0": [], "1.10.0": [], "1.10.0rc1": [], "1.2.11": []}"#),
        Some("1.10.0".to_string())
    );
    assert_eq!(
        latest(r#"{"1.0.0": [], "2.0": []}"#),
        Some("2.0".to_string())
    );
    assert_eq!(
        latest(r#"{"2.31.0": [], "2024": [], "2.32.0.1": []}"#),
        Some("2024".to_string())
    );
    assert_eq!(
        latest(r#"{"1.2.3": [], "1.2.3.4": [], "1.2.3.10": [], "1.2.3.10rc1": []}"#),
        Some("1.2.3.10".to_string())
    );
    assert_eq!(
        latest(r#"{"2020.09.30": [], "2020.12.5": [], "2020.10.1": []}"#),
        Some("2020.12.5".to_string())
    );
    assert_eq!(
        latest(r#"{"18446744073709551616": [], "99999999999999999999.0": [], "3.0.0": []}"#),
        Some("99999999999999999999.0".to_string())
    );
    assert_eq!(latest(r#"{"2.0": [], "2.0.0": []}"#), Some("2.0.0".to_string()));
}

#[test]
fn latest_version_may_be_missing() {
    assert_eq!(
        get_latest_version(&entry(r#"{"": [], ".": [], "1.": [], ".1": [], "1.0.0-beta": []}"#))
            .unwrap(),
        None
    );
    let error = get_latest_version(&entry("[]")).unwrap_err();
    assert!(matches!(error, RegistryError::ReleasesMissing));
    assert_eq!(message_of(error), "Failed to find releases JSON section.");
}

#[test]
fn releases_have_at_most_three_numbers() {
    assert_eq!(
        release_from("18446744073709551615.0.7"),
        Some(Release {
            major: u64::MAX,
            minor: 0,
            patch: 7
        })
    );
    assert_eq!(
        release_from("1.2"),
        Some(Release {
            major: 1,
            minor: 2,
            patch: 0
        })
    );
    assert_eq!(
        release_from("7"),
        Some(Release {
            major: 7,
            minor: 0,
            patch: 0
        })
    );
    for text in [
        "18446744073709551616.0.0",
        "1.0.0.0",
        "1..0",
        "1.00.0",
        "",
        "..",
        "1.0.0-a",
        "1.0.0+b",
        "\u{0661}.0.0",
        " 1.0.0",
    ] {
        assert_eq!(release_from(text), None, "{}", text);
    }
    let named = vec!["2.0.0".to_string(), "9.0".to_string(), "2".to_string()];
    assert_eq!(latest_version(&named), Some("9.0".to_string()));
    let named = vec!["2.0.0".to_string(), "1".to_string(), "2".to_string()];
    assert_eq!(latest_version(&named), Some("2".to_string()));
    assert_eq!(latest_version(&Vec::new()), None);
    assert!(Release { major: 1, minor: 2, patch: 3 }
        .is_later_than(&Release { major: 1, minor: 1, patch: 9 }));
}

#[test]
fn the_first_source_archive_is_found() {
    let entry = entry(
        r#"{"1.0.0": [
            {"python_version": "cp39", "url": "https://a.example/wheel"},
            {"python_version": "source", "url": "HTTPS://A.example/one/../source.tar.gz"},
            {"python_version": "source", "url": "https://a.example/other"}
        ]}"#,
    );
    assert_eq!(
        find_source_archive(&entry, "1.0.0").unwrap(),
        "HTTPS://A.example/one/../source.tar.gz"
    );
    assert_eq!(
        get_archive_url(&entry, "1.0.0").unwrap(),
        "https://a.example/source.tar.gz"
    );
}

#[test]
fn missing_archives_are_told_apart() {
    let releases = r#"{
        "1.0.0": [],
        "2.0.0": {},
        "3.0.0": [{"url": "https://a.example/"}],
        "4.0.0": [{"python_version": "py3", "url": "https://a.example/"}],
        "5.0.0": [{"python_version": "source"}],
        "6.0.0": [{"python_version": "source", "url": "no url"}],
        "7.0.0": [{"python_version": "source", "url": "https://"}]
    }"#;
    let entry = entry(releases);

    let error = get_archive_url(&Json::Null, "1.0.0").unwrap_err();
    assert!(matches!(error, RegistryError::ReleasesMissing));

    let error = get_archive_url(&entry, "0.1.0").unwrap_err();
    assert!(matches!(&error, RegistryError::ReleaseNotFound { version } if version == "0.1.0"));
    assert_eq!(
        message_of(error),
        "Package version not found in registry releases: 0.1.0"
    );

    let error = get_archive_url(&entry, "1.0.0").unwrap_err();
    assert!(matches!(&error, RegistryError::ReleaseEmpty { version } if version == "1.0.0"));
    assert_eq!(
        message_of(error),
        "No release artifacts found for version 1.0.0."
    );

    let error = get_archive_url(&entry, "2.0.0").unwrap_err();
    assert!(matches!(&error, RegistryError::ReleaseNotArray { version } if version == "2.0.0"));
    assert_eq!(
        message_of(error),
        "Registry releases entry for version 2.0.0 is not an array."
    );

    let error = get_archive_url(&entry, "3.0.0").unwrap_err();
    assert!(matches!(error, RegistryError::PythonVersion));
    assert_eq!(message_of(error), "Failed to parse package version.");

    let error = get_archive_url(&entry, "4.0.0").unwrap_err();
    assert!(matches!(error, RegistryError::NoSourceArchive));
    assert_eq!(message_of(error), "Failed to identify package archive URL.");

    let error = get_archive_url(&entry, "5.0.0").unwrap_err();
    assert!(matches!(error, RegistryError::ArchiveUrl));
    assert_eq!(message_of(error), "Failed to parse package archive URL.");

    let error = get_archive_url(&entry, "6.0.0").unwrap_err();
    assert!(matches!(
        error,
        RegistryError::InvalidUrl(url::ParseError::RelativeUrlWithoutBase)
    ));
    let error = get_archive_url(&entry, "7.0.0").unwrap_err();
    assert!(matches!(
        error,
        RegistryError::InvalidUrl(url::ParseError::EmptyHost)
    ));
    assert!(error.message().is_none());
}

#[test]
fn urls_are_made_from_templates() {
    let extension = PyExtension::new();
    assert_eq!(
        extension.get_registry_human_url("numpy", "1.18.5").unwrap(),
        "https://pypi.org/pypi/numpy/1.18.5/"
    );
    assert_eq!(
        extension.get_registry_human_url("a b", "{{x}}").unwrap(),
        "https://pypi.org/pypi/a%20b/%7B%7Bx%7D%7D/"
    );
    assert_eq!(
        registry_entry_url("numpy").unwrap(),
        "https://pypi.org/pypi/numpy/json"
    );
    assert_eq!(
        registry_entry_url("<a>\"&'`=").unwrap(),
        "https://pypi.org/pypi/&lt;a&gt;&quot;&amp;&#x27;&#x60;&#x3D;/json"
    );
    assert_eq!(registry_entry_url("").unwrap(), "https://pypi.org/pypi//json");
}

#[test]
fn answers_that_are_not_json_are_quoted() {
    let error = registry_entry_from_body("<html>").unwrap_err();
    assert!(matches!(&error, RegistryError::NotJson { body, .. } if body == "<html>"));
    assert_eq!(message_of(error), "JSON was not well-formatted:\n<html>");
    assert!(registry_entry_from_body("{}").is_ok());
}

#[test]
fn metadata_of_a_given_version_takes_one_fetch() {
    let extension = PyExtension::new();
    let step = extension.metadata_start("numpy", Some("1.18.5")).unwrap();
    let purpose = match step {
        MetadataStep::Fetch { url, purpose } => {
            assert_eq!(url, "https://pypi.org/pypi/numpy/json");
            purpose
        }
        MetadataStep::Done(metadata) => panic!("unexpected metadata: {:?}", metadata),
    };
    let body = r#"{"releases": {"1.18.5": [
        {"python_version": "source", "url": "https://files.example/numpy.zip"}
    ]}}"#;
    assert_eq!(
        extension.metadata_step("numpy", purpose, body).unwrap(),
        MetadataStep::Done(vec![RegistryPackageMetadata {
            registry_host_name: "pypi.org".to_string(),
            human_url: "https://pypi.org/pypi/numpy/1.18.5/".to_string(),
            artifact_url: "https://files.example/numpy.zip".to_string(),
            is_primary: true,
            package_version: "1.18.5".to_string(),
        }])
    );
}

#[test]
fn metadata_of_the_latest_version_takes_two_fetches() {
    let extension = PyExtension::new();
    let body = r#"{"releases": {
        "0.9.0": [{"python_version": "source", "url": "https://files.example/old"}],
        "0.10": [{"python_version": "source", "url": "https://files.example/new"}]
    }}"#;
    let mut step = extension.metadata_start("pkg", None).unwrap();
    let mut fetches = 0;
    let metadata = loop {
        match step {
            MetadataStep::Fetch { url, purpose } => {
                assert_eq!(url, "https://pypi.org/pypi/pkg/json");
                fetches += 1;
                step = extension.metadata_step("pkg", purpose, body).unwrap();
            }
            MetadataStep::Done(metadata) => break metadata,
        }
    };
    assert_eq!(fetches, 2);
    assert_eq!(metadata.len(), 1);
    assert_eq!(metadata[0].package_version, "0.10");
    assert_eq!(metadata[0].artifact_url, "https://files.example/new");
}

#[test]
fn metadata_without_any_release_is_rejected() {
    let extension = PyExtension::new();
    let error = extension
        .metadata_step("pkg", FetchPurpose::LatestVersion, r#"{"releases": {}}"#)
        .unwrap_err();
    assert!(matches!(error, RegistryError::VersionMissing));
    assert_eq!(message_of(error), "Failed to find package version.");

    let error = extension
        .metadata_step("pkg", FetchPurpose::LatestVersion, "no json")
        .unwrap_err();
    assert!(matches!(error, RegistryError::NotJson { .. }));
}
