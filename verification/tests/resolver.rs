use thirdpass_py_lib::report::identify_package_dependencies;
use thirdpass_py_lib::resolver::{
    command_output, describe_output, has_inline_value, package_requirement, pip_resolver_commands,
    resolver_arg_spec, resolver_args_from_extension_args, temp_directory_name, ArgumentError,
    AttemptFailure, Invocation, Resolution, ResolverAction, ResolverArgSpec, ResolverCommand,
    PYTHON_ENV_VAR, SUPPORTED_RESOLVER_ARGS,
};

fn strings(texts: &[&str]) -> Vec<String> {
    texts.iter().map(|text| text.to_string()).collect()
}

fn invocation_of(action: ResolverAction) -> Invocation {
    match action {
        ResolverAction::Run(invocation) => invocation,
        action => panic!("unexpected action: {:?}", action),
    }
}

#[test]
fn resolver_args_accept_supported_pip_knobs() {
    let args = resolver_args_from_extension_args(&[
        "--index-url=https://example.invalid/simple".to_string(),
        "--python-version".to_string(),
        "3.12".to_string(),
        "--platform".to_string(),
        "manylinux2014_x86_64".to_string(),
        "--implementation".to_string(),
        "cp".to_string(),
        "--abi".to_string(),
        "cp312".to_string(),
        "--only-binary".to_string(),
        ":all:".to_string(),
        "--pre".to_string(),
    ])
    .unwrap();

    assert_eq!(
        args,
        vec![
            "--index-url=https://example.invalid/simple",
            "--python-version",
            "3.12",
            "--platform",
            "manylinux2014_x86_64",
            "--implementation",
            "cp",
            "--abi",
            "cp312",
            "--only-binary",
            ":all:",
            "--pre"
        ]
    );
}

#[test]
fn resolver_args_reject_unsupported_options() {
    let error = resolver_args_from_extension_args(&["--target".to_string()])
        .expect_err("expected unsupported argument to fail");

    assert!(error
        .message()
        .contains("Unsupported Python resolver argument: --target"));
}

#[test]
fn resolver_args_require_values_for_value_options() {
    let error = resolver_args_from_extension_args(&["--index-url".to_string()])
        .expect_err("expected missing value to fail");

    assert!(error
        .message()
        .contains("Python resolver argument --index-url requires a value."));
}

#[test]
fn resolver_command_reads_fake_pip_report() {
    let extension_args = vec![
        "--index-url".to_string(),
        "https://example.invalid/simple".to_string(),
    ];
    let mut resolution = Resolution::new(
        "sample-package",
        Some("1.0.0"),
        &extension_args,
        Some("/tmp/fake-pip/fake-python".to_string()),
    )
    .unwrap();
    let invocation = invocation_of(resolution.action());
    assert_eq!(invocation.program, "/tmp/fake-pip/fake-python");
    assert_eq!(
        invocation.leading_args,
        vec![
            "-m",
            "pip",
            "install",
            "--disable-pip-version-check",
            "--no-input",
            "--dry-run",
            "--ignore-installed",
            "--report"
        ]
    );
    assert_eq!(
        invocation.trailing_args,
        vec![
            "--index-url",
            "https://example.invalid/simple",
            "sample-package==1.0.0"
        ]
    );

    let report = r#"{
  "install": [
    {
      "requested": true,
      "metadata": {
        "name": "sample-package",
        "version": "1.0.0"
      }
    },
    {
      "requested": false,
      "metadata": {
        "name": "dependency",
        "version": "2.0.0"
      }
    }
  ]
}"#;
    resolution.attempt_succeeded();
    assert!(matches!(resolution.action(), ResolverAction::ReadReport));
    let dependencies = identify_package_dependencies(
        Some(report),
        "/tmp/fake-pip/pip-report.json",
        "sample-package",
        Some("1.0.0"),
    )
    .unwrap()
    .unwrap();

    assert_eq!(dependencies.len(), 1);
    assert_eq!(dependencies[0].package_version, Ok("1.0.0".to_string()));
    assert!(dependencies[0]
        .dependencies
        .iter()
        .any(|dependency| dependency.name == "dependency"
            && dependency.version == Ok("2.0.0".to_string())));
}

#[test]
fn unsupported_argument_message_lists_the_supported_ones() {
    let error = resolver_args_from_extension_args(&strings(&["--pre", "install"])).unwrap_err();
    assert!(matches!(&error, ArgumentError::Unsupported { argument } if argument == "install"));
    assert_eq!(
        error.message(),
        format!(
            "Unsupported Python resolver argument: install. Supported pip arguments: {}",
            SUPPORTED_RESOLVER_ARGS
        )
    );
    assert_eq!(
        SUPPORTED_RESOLVER_ARGS,
        "--index-url, -i, --extra-index-url, \
         --find-links, -f, --trusted-host, --proxy, --cert, --client-cert, \
         --timeout, --retries, --python-version, --platform, --implementation, \
         --abi, --only-binary, --no-binary, --constraint, -c, --no-index, \
         --pre, --prefer-binary, --no-build-isolation, --no-cache-dir"
    );
}

#[test]
fn every_supported_argument_is_accepted() {
    for option in SUPPORTED_RESOLVER_ARGS.split(", ") {
        match resolver_arg_spec(option) {
            Some(ResolverArgSpec::Flag) => {
                let args = strings(&[option]);
                assert_eq!(resolver_args_from_extension_args(&args).unwrap(), args);
            }
            Some(ResolverArgSpec::Value) => {
                let args = strings(&[option, "value"]);
                assert_eq!(resolver_args_from_extension_args(&args).unwrap(), args);
                assert!(resolver_args_from_extension_args(&strings(&[option])).is_err());
            }
            None => panic!("not supported: {}", option),
        }
    }
}

#[test]
fn a_value_does_not_start_with_a_dash() {
    let error =
        resolver_args_from_extension_args(&strings(&["--timeout", "-1", "--pre"])).unwrap_err();
    assert!(matches!(&error, ArgumentError::MissingValue { argument } if argument == "--timeout"));
    assert_eq!(
        error.message(),
        "Python resolver argument --timeout requires a value."
    );

    let attached = strings(&["--timeout=-1", "--pre"]);
    assert_eq!(resolver_args_from_extension_args(&attached).unwrap(), attached);
}

#[test]
fn a_short_option_takes_the_next_argument_even_behind_an_equals_sign() {
    assert!(resolver_args_from_extension_args(&strings(&["-i=url"])).is_err());
    let args = strings(&["-i=url", "value"]);
    assert_eq!(resolver_args_from_extension_args(&args).unwrap(), args);
    assert!(!has_inline_value("-i=url"));
    assert!(has_inline_value("--index-url="));
    assert!(!has_inline_value("--index-url"));
}

#[test]
fn argument_specs_ignore_attached_values() {
    assert_eq!(resolver_arg_spec("--proxy=a=b"), Some(ResolverArgSpec::Value));
    assert_eq!(resolver_arg_spec("--pre=yes"), Some(ResolverArgSpec::Flag));
    assert_eq!(resolver_arg_spec("--prex"), None);
    assert_eq!(resolver_arg_spec("=--pre"), None);
    assert_eq!(resolver_arg_spec(""), None);
}

#[test]
fn accepted_argument_lists_can_be_joined() {
    let first = strings(&["--cert", "a", "--no-index"]);
    let second = strings(&["-c", "b", "--retries=3"]);
    let mut both = first;
    both.extend(second);
    assert_eq!(resolver_args_from_extension_args(&both).unwrap(), both);
    assert_eq!(
        resolver_args_from_extension_args(&[]).unwrap(),
        Vec::<String>::new()
    );
}

#[test]
fn requirements_pin_the_version_where_there_is_one() {
    assert_eq!(package_requirement("numpy", Some("1.18.5")), "numpy==1.18.5");
    assert_eq!(package_requirement("numpy", None), "numpy");
}

#[test]
fn pip_is_run_through_the_chosen_python_alone() {
    assert_eq!(PYTHON_ENV_VAR, "THIRDPASS_PYTHON");
    assert_eq!(
        pip_resolver_commands(Some("/opt/python".to_string())),
        vec![ResolverCommand {
            program: "/opt/python".to_string(),
            prefix_args: strings(&["-m", "pip"]),
        }]
    );
}

#[test]
fn pip_is_looked_for_in_three_places() {
    let commands = pip_resolver_commands(None);
    let lines: Vec<String> = commands.iter().map(|command| command.display()).collect();
    assert_eq!(lines, vec!["python3 -m pip", "pip3", "pip"]);
}

#[test]
fn output_is_trimmed_and_named() {
    assert_eq!(
        describe_output(" out\n", "\terr \r\n"),
        "stdout:\nout\nstderr:\nerr"
    );
    assert_eq!(describe_output("a b", " \n"), "stdout:\na b\n");
    assert_eq!(describe_output("", "err"), "stderr:\nerr");
    assert_eq!(describe_output("\n", ""), "resolver produced no output");
    assert_eq!(describe_output("\u{a0}x\u{a0}", ""), "stdout:\nx\n");
}

#[test]
fn output_bytes_are_decoded_with_replacements() {
    assert_eq!(command_output(b"caf\xc3\xa9 ", b""), "stdout:\ncaf\u{e9}\n");
    assert_eq!(command_output(b"", b"a\xffb"), "stderr:\na\u{fffd}b");
    assert_eq!(command_output(b"", b""), "resolver produced no output");
}

#[test]
fn commands_are_tried_one_after_another() {
    let mut resolution = Resolution::new("numpy", None, &[], None).unwrap();

    let first = invocation_of(resolution.action());
    assert_eq!(first.program, "python3");
    assert_eq!(first.trailing_args, vec!["numpy"]);
    resolution.attempt_failed(AttemptFailure::NotStarted {
        error: "not found".to_string(),
    });

    let second = invocation_of(resolution.action());
    assert_eq!(second.program, "pip3");
    assert_eq!(second.leading_args[0], "install");
    resolution.attempt_failed(AttemptFailure::Exited {
        stdout: b"out".to_vec(),
        stderr: b"err".to_vec(),
    });

    assert_eq!(invocation_of(resolution.action()).program, "pip");
    resolution.attempt_failed(AttemptFailure::Exited {
        stdout: Vec::new(),
        stderr: Vec::new(),
    });

    for _ in 0..2 {
        match resolution.action() {
            ResolverAction::GiveUp(failure) => assert_eq!(
                failure.message(),
                "Python package resolver failed for numpy:\n\
                 python3 -m pip failed to start: not found\n\
                 pip3 failed:\nstdout:\nout\nstderr:\nerr\n\
                 pip failed:\nresolver produced no output"
            ),
            action => panic!("unexpected action: {:?}", action),
        }
        resolution.attempt_succeeded();
        resolution.attempt_failed(AttemptFailure::NotStarted {
            error: "again".to_string(),
        });
    }
}

#[test]
fn the_first_success_ends_the_attempts() {
    let mut resolution = Resolution::new("numpy", None, &[], None).unwrap();
    resolution.attempt_failed(AttemptFailure::NotStarted {
        error: "not found".to_string(),
    });
    assert_eq!(invocation_of(resolution.action()).program, "pip3");
    resolution.attempt_succeeded();
    for _ in 0..3 {
        assert!(matches!(resolution.action(), ResolverAction::ReadReport));
        resolution.attempt_failed(AttemptFailure::NotStarted {
            error: "late".to_string(),
        });
        resolution.attempt_succeeded();
    }
}

#[test]
fn a_resolution_does_not_start_with_rejected_arguments() {
    let error = Resolution::new("numpy", None, &strings(&["--user"]), None).unwrap_err();
    assert!(matches!(&error, ArgumentError::Unsupported { argument } if argument == "--user"));
}

#[test]
fn temp_directories_are_named_after_label_process_and_time() {
    assert_eq!(
        temp_directory_name("identify", 4711, 1700000000123456789),
        "thirdpass-py-resolver-identify-4711-1700000000123456789"
    );
    assert_eq!(temp_directory_name("", 0, 10), "thirdpass-py-resolver--0-10");
    assert_eq!(
        temp_directory_name("x", u32::MAX, u128::MAX),
        format!("thirdpass-py-resolver-x-{}-{}", u32::MAX, u128::MAX)
    );
}
