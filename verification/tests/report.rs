use thirdpass_py_lib::dependencies::Dependency;
use thirdpass_py_lib::json::{Json, Member};
use thirdpass_py_lib::names::canonical_package_name;
use thirdpass_py_lib::report::{
    identify_package_dependencies, package_dependencies_from_pip_report, read_report,
    resolved_packages_from_pip_report, resolver_report, select_target_package, ReportError,
    ReportReading, ResolvedPackage,
};

fn text(text: &str) -> Json {
    Json::Text(text.to_string())
}

fn object(members: Vec<(&str, Json)>) -> Json {
    Json::Object(
        members
            .into_iter()
            .map(|(key, value)| Member {
                key: key.to_string(),
                value,
            })
            .collect(),
    )
}

fn entry(name: &str, version: &str, requested: Option<bool>) -> Json {
    let metadata = object(vec![("name", text(name)), ("version", text(version))]);
    match requested {
        Some(requested) => object(vec![
            ("requested", Json::Bool(requested)),
            ("metadata", metadata),
        ]),
        None => object(vec![("metadata", metadata)]),
    }
}

fn report_of(entries: Vec<Json>) -> Json {
    object(vec![("install", Json::Array(entries))])
}

fn package(name: &str, version: &str, requested: bool) -> ResolvedPackage {
    ResolvedPackage {
        name: name.to_string(),
        version: version.to_string(),
        requested,
    }
}

fn assert_dependency(dependencies: &[Dependency], name: &str, version: &str) {
    assert!(
        dependencies
            .iter()
            .any(|dependency| dependency.name == name
                && dependency.version == Ok(version.to_string())),
        "expected dependency {}@{} in {:?}",
        name,
        version,
        dependencies
    );
}

#[test]
fn package_dependencies_parse_pip_report() {
    let report = object(vec![
        ("version", text("1")),
        ("pip_version", text("25.1")),
        (
            "install",
            Json::Array(vec![
                entry("requests", "2.32.3", Some(true)),
                entry("certifi", "2025.1.31", Some(false)),
                entry("urllib3", "2.3.0", Some(false)),
            ]),
        ),
    ]);

    let dependencies = package_dependencies_from_pip_report(&report, "requests", None).unwrap();

    assert_eq!(dependencies.package_version, Ok("2.32.3".to_string()));
    assert_eq!(dependencies.registry_host_name, "pypi.org");
    assert_eq!(dependencies.dependencies.len(), 2);
    assert_dependency(&dependencies.dependencies, "certifi", "2025.1.31");
    assert_dependency(&dependencies.dependencies, "urllib3", "2.3.0");
    assert!(dependencies
        .dependencies
        .iter()
        .all(|dependency| dependency.name != "requests"));
}

#[test]
fn package_dependencies_match_canonical_target_name() {
    let report = report_of(vec![
        entry("sample-package", "1.0.0", Some(true)),
        entry("dependency_pkg", "2.0.0", None),
    ]);

    let dependencies =
        package_dependencies_from_pip_report(&report, "sample.package", None).unwrap();

    assert_eq!(dependencies.package_version, Ok("1.0.0".to_string()));
    assert_eq!(dependencies.dependencies.len(), 1);
    assert_dependency(&dependencies.dependencies, "dependency_pkg", "2.0.0");
}

#[test]
fn package_dependencies_use_given_version_without_report_target() {
    let report = report_of(vec![entry("dependency", "2.0.0", None)]);

    let dependencies =
        package_dependencies_from_pip_report(&report, "target", Some("1.0.0")).unwrap();

    assert_eq!(dependencies.package_version, Ok("1.0.0".to_string()));
    assert_dependency(&dependencies.dependencies, "dependency", "2.0.0");
}

#[test]
fn canonical_package_name_normalizes_pep_503_names() {
    assert_eq!(
        canonical_package_name("Example.Package__Name"),
        "example-package-name"
    );
}

#[test]
fn canonical_names_are_fixed_points() {
    for name in ["Example.Package__Name", "a-._b", "_x_", "", "Ä.B", "--"] {
        let once = canonical_package_name(name);
        assert_eq!(canonical_package_name(&once), once);
    }
    assert_eq!(canonical_package_name("Ä.B"), "Ä-b");
    assert_eq!(canonical_package_name("_x_"), "-x-");
}

#[test]
fn canonical_names_ignore_separators_and_case() {
    assert_eq!(
        canonical_package_name("typing_extensions"),
        canonical_package_name("Typing-.-Extensions")
    );
    assert_ne!(
        canonical_package_name("typing_extensions"),
        canonical_package_name("typingextensions")
    );
}

#[test]
fn reports_are_read_from_their_text() {
    let report = r#"{"install": [
        {"metadata": {"version": "2", "name": "b"}},
        {"requested": true, "metadata": {"name": "target", "version": "9"}}
    ]}"#;
    let found = identify_package_dependencies(Some(report), "report.json", "Target", None)
        .unwrap()
        .unwrap();
    assert_eq!(found.len(), 1);
    assert_eq!(found[0].package_version, Ok("9".to_string()));
    assert_eq!(
        found[0].dependencies,
        vec![Dependency {
            name: "b".to_string(),
            version: Ok("2".to_string())
        }]
    );
}

#[test]
fn dependencies_are_ordered_by_canonical_name_and_the_last_one_counts() {
    let report = report_of(vec![
        entry("zeta", "1", None),
        entry("Alpha", "1", None),
        entry("b_c", "1", None),
        entry("b", "1", None),
        entry("B.C", "2", None),
        entry("self", "3", Some(true)),
    ]);
    let found = package_dependencies_from_pip_report(&report, "self", None).unwrap();
    assert_dependency(&found.dependencies, "B.C", "2");
    let names: Vec<String> = found
        .dependencies
        .into_iter()
        .map(|dependency| dependency.name)
        .collect();
    assert_eq!(names, vec!["Alpha", "b", "B.C", "zeta"]);
}

#[test]
fn the_requested_package_is_the_target() {
    let packages = vec![
        package("a.b", "1", false),
        package("A-B", "2", true),
        package("a_b", "3", true),
    ];
    assert_eq!(select_target_package(&packages, "a--b"), Some(&packages[1]));
    assert_eq!(
        select_target_package(&packages[..1], "A.B"),
        Some(&packages[0])
    );
    assert_eq!(select_target_package(&packages, "ab"), None);
}

#[test]
fn the_given_version_does_not_replace_the_selected_one() {
    let report = report_of(vec![entry("target", "2.0.0", None)]);
    let found = package_dependencies_from_pip_report(&report, "target", Some("1.0.0")).unwrap();
    assert_eq!(found.package_version, Ok("2.0.0".to_string()));
    assert!(found.dependencies.is_empty());
}

#[test]
fn a_report_without_the_target_needs_a_version() {
    let error = package_dependencies_from_pip_report(&report_of(Vec::new()), "target", None)
        .unwrap_err();
    assert!(matches!(error, ReportError::TargetMissing));
    assert_eq!(
        error.message(),
        "Failed to find target package in pip resolver report."
    );
}

#[test]
fn malformed_reports_are_rejected() {
    let error = resolved_packages_from_pip_report(&Json::Null).unwrap_err();
    assert!(matches!(error, ReportError::InstallSection));
    assert_eq!(
        error.message(),
        "Failed to parse pip report install section."
    );

    let error = resolved_packages_from_pip_report(&report_of(vec![Json::Number])).unwrap_err();
    assert!(matches!(error, ReportError::MetadataSection));
    assert_eq!(
        error.message(),
        "Failed to parse pip report metadata section."
    );

    let nameless = object(vec![(
        "metadata",
        object(vec![("name", Json::Number), ("version", text("1"))]),
    )]);
    let error = resolved_packages_from_pip_report(&report_of(vec![nameless])).unwrap_err();
    assert!(matches!(error, ReportError::PackageName));
    assert_eq!(error.message(), "Failed to parse pip report package name.");

    let versionless = object(vec![(
        "metadata",
        object(vec![("name", text("a")), ("version", Json::Null)]),
    )]);
    let error =
        resolved_packages_from_pip_report(&report_of(vec![entry("b", "1", None), versionless]))
            .unwrap_err();
    assert!(matches!(error, ReportError::PackageVersion));
    assert_eq!(
        error.message(),
        "Failed to parse pip report package version."
    );

    let error = identify_package_dependencies(Some("{"), "report.json", "a", None)
        .unwrap()
        .unwrap_err();
    assert!(matches!(&error, ReportError::NotJson(source) if source.column() == 1));
    assert_eq!(error.message(), "Failed to parse pip resolver report.");

    let error = identify_package_dependencies(None, "/tmp/report.json", "a", Some("1"))
        .unwrap()
        .unwrap_err();
    assert!(matches!(error, ReportError::NotRead { .. }));
    assert_eq!(
        error.message(),
        "Failed to read pip resolver report: /tmp/report.json"
    );
}

#[test]
fn reports_are_read_from_text() {
    let report = resolver_report(Some(r#"{"install": []}"#), "report.json").unwrap();
    assert!(resolved_packages_from_pip_report(&report).unwrap().is_empty());
    assert!(matches!(
        resolver_report(Some("install"), "report.json"),
        Err(ReportError::NotJson(_))
    ));
    assert!(matches!(
        resolver_report(None, "report.json"),
        Err(ReportError::NotRead { report_path }) if report_path == "report.json"
    ));
}

#[test]
fn metadata_without_a_name_or_a_version_is_told_apart() {
    let text = r#"{"install": [{"metadata": {"name": "a"}}]}"#;
    assert!(identify_package_dependencies(Some(text), "report.json", "a", Some("1")).is_none());
    let text = r#"{"install": [{"metadata": {"version": "1"}}]}"#;
    assert!(identify_package_dependencies(Some(text), "report.json", "a", Some("1")).is_none());
    let text = r#"{"install": [{"metadata": 1}, {"metadata": {}}]}"#;
    assert!(matches!(
        identify_package_dependencies(Some(text), "report.json", "a", Some("1")),
        Some(Err(ReportError::MetadataSection))
    ));
    assert!(matches!(
        read_report(&report_of(vec![object(vec![("metadata", object(vec![]))])])),
        ReportReading::Incomplete
    ));
}

#[test]
fn requested_is_true_only_where_the_report_says_so() {
    let odd = object(vec![
        ("requested", text("true")),
        (
            "metadata",
            object(vec![("name", text("c")), ("version", text("3"))]),
        ),
    ]);
    let packages = resolved_packages_from_pip_report(&report_of(vec![
        entry("a", "1", Some(true)),
        entry("b", "2", None),
        odd,
    ]))
    .unwrap();
    assert_eq!(
        packages,
        vec![
            package("a", "1", true),
            package("b", "2", false),
            package("c", "3", false)
        ]
    );
}

#[test]
fn json_texts_are_read_into_values() {
    let json = Json::parse(r#"{"t": "x", "l": [1, null, true], "o": {"k": "v"}}"#).unwrap();
    assert_eq!(json.member_str("t").unwrap(), "x");
    assert!(json.member_str("l").is_none());
    assert_eq!(json.get("o").unwrap().member_str("k").unwrap(), "v");
    assert!(json.get("missing").is_none());
    assert!(matches!(
        json.get("l"),
        Some(Json::Array(items)) if matches!(
            items.as_slice(),
            [Json::Number, Json::Null, Json::Bool(true)]
        )
    ));
    assert!(Json::parse("nothing").is_err());

    let value: serde_json::Value = serde_json::from_str(r#"{"name": ["a"]}"#).unwrap();
    assert!(matches!(
        Json::from_value(&value).get("name"),
        Some(Json::Array(items)) if items.len() == 1
    ));
}
