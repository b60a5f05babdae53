//! Package dependency resolution through pip.
//!
//! Python packages declare version ranges, environment markers, extras and
//! index-specific availability rather than one dependency tree. pip resolves a
//! package in the caller's environment, and its report holds the exact versions
//! that it selected.
use vstd::prelude::*;

use crate::{text, version};

verus! {

/// The resolver arguments that pip may be given, as error messages list them.
pub const SUPPORTED_RESOLVER_ARGS: &'static str = "--index-url, -i, --extra-index-url, --find-links, -f, --trusted-host, --proxy, --cert, --client-cert, --timeout, --retries, --python-version, --platform, --implementation, --abi, --only-binary, --no-binary, --constraint, -c, --no-index, --pre, --prefer-binary, --no-build-isolation, --no-cache-dir";

/// What a resolver option expects behind it.
#[derive(Debug, Clone, Copy, PartialEq, Eq, Structural)]
pub enum ResolverArgSpec {
    Flag,
    Value,
}

/// Why resolver arguments are rejected.
#[derive(Debug)]
pub enum ArgumentError {
    /// The argument is none of the supported ones.
    Unsupported { argument: String },
    /// No value follows an argument that needs one.
    MissingValue { argument: String },
}

/// The view of an [`ArgumentError`].
pub enum ArgumentFault {
    Unsupported(Seq<char>),
    MissingValue(Seq<char>),
}

impl View for ArgumentError {
    type V = ArgumentFault;

    open spec fn view(&self) -> ArgumentFault {
        match self {
            ArgumentError::Unsupported { argument } => ArgumentFault::Unsupported(argument@),
            ArgumentError::MissingValue { argument } => ArgumentFault::MissingValue(argument@),
        }
    }
}

impl ArgumentFault {
    /// The message of an argument error.
    pub open spec fn message(self) -> Seq<char> {
        match self {
            ArgumentFault::Unsupported(argument) => "Unsupported Python resolver argument: "@
                + argument + ". Supported pip arguments: "@ + SUPPORTED_RESOLVER_ARGS@,
            ArgumentFault::MissingValue(argument) => "Python resolver argument "@ + argument
                + " requires a value."@,
        }
    }
}

impl ArgumentError {
    /// The message of this error.
    pub fn message(&self) -> (result: String)
        ensures
            result@ == self@.message(),
    {
        match self {
            ArgumentError::Unsupported { argument } => {
                let mut message = "Unsupported Python resolver argument: ".to_owned();
                message.append(argument.as_str());
                message.append(". Supported pip arguments: ");
                message.append(SUPPORTED_RESOLVER_ARGS);
                message
            },
            ArgumentError::MissingValue { argument } => {
                let mut message = "Python resolver argument ".to_owned();
                message.append(argument.as_str());
                message.append(" requires a value.");
                message
            },
        }
    }
}

/// The options that take a value.
pub open spec fn is_value_option(option: Seq<char>) -> bool {
    ||| option == "--index-url"@
    ||| option == "-i"@
    ||| option == "--extra-index-url"@
    ||| option == "--find-links"@
    ||| option == "-f"@
    ||| option == "--trusted-host"@
    ||| option == "--proxy"@
    ||| option == "--cert"@
    ||| option == "--client-cert"@
    ||| option == "--timeout"@
    ||| option == "--retries"@
    ||| option == "--python-version"@
    ||| option == "--platform"@
    ||| option == "--implementation"@
    ||| option == "--abi"@
    ||| option == "--only-binary"@
    ||| option == "--no-binary"@
    ||| option == "--constraint"@
    ||| option == "-c"@
}

/// The options that stand alone.
pub open spec fn is_flag_option(option: Seq<char>) -> bool {
    ||| option == "--no-index"@
    ||| option == "--pre"@
    ||| option == "--prefer-binary"@
    ||| option == "--no-build-isolation"@
    ||| option == "--no-cache-dir"@
}

/// What the option of an argument expects, where the option is supported. The
/// option is the argument up to its first `=`.
pub open spec fn argument_spec(argument: Seq<char>) -> Option<ResolverArgSpec> {
    let option = text::until(argument, '=');
    if is_value_option(option) {
        Some(ResolverArgSpec::Value)
    } else if is_flag_option(option) {
        Some(ResolverArgSpec::Flag)
    } else {
        None
    }
}

/// Whether a long option carries its value behind an `=`.
pub open spec fn carries_value(argument: Seq<char>) -> bool {
    text::has_prefix(argument, "--"@) && argument.contains('=')
}

/// Whether the argument takes its value from the argument behind it.
pub open spec fn takes_next(argument: Seq<char>) -> bool {
    argument_spec(argument) == Some(ResolverArgSpec::Value) && !carries_value(argument)
}

/// The first fault in a list of resolver arguments, read from left to right.
pub open spec fn first_fault(arguments: Seq<Seq<char>>) -> Option<ArgumentFault>
    decreases arguments.len(),
{
    if arguments.len() == 0 {
        None
    } else if argument_spec(arguments[0]) is None {
        Some(ArgumentFault::Unsupported(arguments[0]))
    } else if !takes_next(arguments[0]) {
        first_fault(arguments.skip(1))
    } else if arguments.len() < 2 || text::has_prefix(arguments[1], "-"@) {
        Some(ArgumentFault::MissingValue(arguments[0]))
    } else {
        first_fault(arguments.skip(2))
    }
}

/// Check the arguments for pip. Arguments without a fault are handed on as they
/// are.
pub fn resolver_args_from_extension_args(extension_args: &[String]) -> (result: Result<
    Vec<String>,
    ArgumentError,
>)
    ensures
        match result {
            Ok(resolver_args) => first_fault(text::views(extension_args@)) is None && resolver_args@
                == extension_args@,
            Err(error) => first_fault(text::views(extension_args@)) == Some(error@),
        },
{
    let mut resolver_args: Vec<String> = Vec::new();
    let mut index: usize = 0;
    let ghost all = text::views(extension_args@);
    assert(all.skip(0) == all);
    while index < extension_args.len()
        invariant
            all == text::views(extension_args@),
            index <= extension_args@.len(),
            first_fault(all) == first_fault(all.skip(index as int)),
            resolver_args@ == extension_args@.take(index as int),
        decreases extension_args@.len() - index,
    {
        let arg = &extension_args[index];
        let ghost rest = all.skip(index as int);
        let spec = match resolver_arg_spec(arg.as_str()) {
            Some(spec) => spec,
            None => {
                return Err(ArgumentError::Unsupported { argument: arg.clone() });
            },
        };
        resolver_args.push(arg.clone());
        assert(resolver_args@ == extension_args@.take(index + 1));

        if spec == ResolverArgSpec::Value && !has_inline_value(arg.as_str()) {
            index += 1;
            if index >= extension_args.len() || text::starts_with(
                extension_args[index].as_str(),
                "-",
            ) {
                return Err(ArgumentError::MissingValue { argument: arg.clone() });
            }
            resolver_args.push(extension_args[index].clone());
            assert(resolver_args@ == extension_args@.take(index + 1));
            assert(rest.skip(2) == all.skip(index + 1));
        } else {
            assert(rest.skip(1) == all.skip(index + 1));
        }

        index += 1;
    }
    assert(extension_args@.take(index as int) == extension_args@);
    Ok(resolver_args)
}

/// What the option of an argument expects, where the option is supported.
pub fn resolver_arg_spec(arg: &str) -> (result: Option<ResolverArgSpec>)
    ensures
        result == argument_spec(arg@),
{
    let option_name = text::prefix_until(arg, '=');
    let option = option_name.as_str();
    if text::equal(option, "--index-url")
        || text::equal(option, "-i")
        || text::equal(option, "--extra-index-url")
        || text::equal(option, "--find-links")
        || text::equal(option, "-f")
        || text::equal(option, "--trusted-host")
        || text::equal(option, "--proxy")
        || text::equal(option, "--cert")
        || text::equal(option, "--client-cert")
        || text::equal(option, "--timeout")
        || text::equal(option, "--retries")
        || text::equal(option, "--python-version")
        || text::equal(option, "--platform")
        || text::equal(option, "--implementation")
        || text::equal(option, "--abi")
        || text::equal(option, "--only-binary")
        || text::equal(option, "--no-binary")
        || text::equal(option, "--constraint")
        || text::equal(option, "-c") {
        Some(ResolverArgSpec::Value)
    } else if text::equal(option, "--no-index")
        || text::equal(option, "--pre")
        || text::equal(option, "--prefer-binary")
        || text::equal(option, "--no-build-isolation")
        || text::equal(option, "--no-cache-dir") {
        Some(ResolverArgSpec::Flag)
    } else {
        None
    }
}

/// Whether a long option carries its value behind an `=`.
pub fn has_inline_value(arg: &str) -> (result: bool)
    ensures
        result == carries_value(arg@),
{
    text::starts_with(arg, "--") && text::find(
        &text::characters(arg),
        '=',
    ).is_some()
}

/// The requirement that pip is asked to resolve: the name, pinned to the version
/// where there is one.
pub open spec fn requirement(package_name: Seq<char>, package_version: Option<Seq<char>>) -> Seq<
    char,
> {
    match package_version {
        Some(package_version) => package_name + "=="@ + package_version,
        None => package_name,
    }
}

/// The requirement that pip is asked to resolve.
pub fn package_requirement(package_name: &str, package_version: Option<&str>) -> (result: String)
    ensures
        result@ == requirement(package_name@, text::optional_view(package_version)),
{
    let mut result = package_name.to_owned();
    if let Some(package_version) = package_version {
        result.append("==");
        result.append(package_version);
    }
    result
}

/// The environment variable that names the Python executable whose pip is used.
pub const PYTHON_ENV_VAR: &'static str = "THIRDPASS_PYTHON";

/// A way to run pip.
#[derive(Debug, PartialEq, Eq)]
pub struct ResolverCommand {
    pub program: String,
    pub prefix_args: Vec<String>,
}

/// The view of a [`ResolverCommand`].
pub struct CommandView {
    pub program: Seq<char>,
    pub prefix_args: Seq<Seq<char>>,
}

impl View for ResolverCommand {
    type V = CommandView;

    open spec fn view(&self) -> CommandView {
        CommandView { program: self.program@, prefix_args: text::views(self.prefix_args@) }
    }
}

/// What a list of commands stands for.
pub open spec fn command_views(commands: Seq<ResolverCommand>) -> Seq<CommandView> {
    Seq::new(commands.len(), |i: int| commands[i]@)
}

impl CommandView {
    /// The command line that stands for the command in messages.
    pub open spec fn display(self) -> Seq<char> {
        text::joined(seq![self.program] + self.prefix_args, " "@)
    }
}

impl ResolverCommand {
    /// The command line that stands for this command in messages.
    pub fn display(&self) -> (result: String)
        ensures
            result@ == self@.display(),
    {
        let mut parts = vec![self.program.clone()];
        text::append_all(&mut parts, &self.prefix_args);
        assert(text::views(parts@) == seq![self.program@] + text::views(self.prefix_args@));
        text::join(&parts, " ")
    }
}

/// Running pip as a module of a Python executable.
pub open spec fn pip_module(python: Seq<char>) -> CommandView {
    CommandView { program: python, prefix_args: seq!["-m"@, "pip"@] }
}

/// Running pip under its own name.
pub open spec fn pip_program(program: Seq<char>) -> CommandView {
    CommandView { program, prefix_args: Seq::empty() }
}

fn run_pip_module(python: String) -> (result: ResolverCommand)
    ensures
        result@ == pip_module(python@),
{
    let result = ResolverCommand {
        program: python,
        prefix_args: vec!["-m".to_owned(), "pip".to_owned()],
    };
    assert(text::views(result.prefix_args@) == seq!["-m"@, "pip"@]);
    result
}

fn run_pip_program(program: String) -> (result: ResolverCommand)
    ensures
        result@ == pip_program(program@),
{
    let result = ResolverCommand { program, prefix_args: Vec::new() };
    assert(text::views(result.prefix_args@) == Seq::<Seq<char>>::empty());
    result
}

/// The ways to run pip, in the order in which they are tried. Where a Python
/// executable is chosen, no other is tried.
pub open spec fn pip_commands(python: Option<Seq<char>>) -> Seq<CommandView> {
    match python {
        Some(python) => seq![pip_module(python)],
        None => seq![pip_module("python3"@), pip_program("pip3"@), pip_program("pip"@)],
    }
}

/// The ways to run pip, in the order in which they are tried. `python` is the
/// Python executable that the environment chooses.
pub fn pip_resolver_commands(python: Option<String>) -> (result: Vec<ResolverCommand>)
    ensures
        command_views(result@) == pip_commands(
            match python {
                Some(python) => Some(python@),
                None => None,
            },
        ),
{
    match python {
        Some(python) => {
            let commands = vec![run_pip_module(python)];
            assert(command_views(commands@) == seq![pip_module(python@)]);
            commands
        },
        None => {
            let commands = vec![
                run_pip_module("python3".to_owned()),
                run_pip_program("pip3".to_owned()),
                run_pip_program("pip".to_owned()),
            ];
            assert(command_views(commands@) == seq![
                pip_module("python3"@),
                pip_program("pip3"@),
                pip_program("pip"@),
            ]);
            commands
        },
    }
}

/// What is said of the output of a command: the parts that hold more than
/// whitespace, each under its name.
pub open spec fn output_message(stdout: Seq<char>, stderr: Seq<char>) -> Seq<char> {
    let out = text::trimmed(stdout);
    let err = text::trimmed(stderr);
    if out.len() == 0 && err.len() == 0 {
        "resolver produced no output"@
    } else if err.len() == 0 {
        "stdout:\n"@ + out + "\n"@
    } else if out.len() == 0 {
        "stderr:\n"@ + err
    } else {
        "stdout:\n"@ + out + "\n"@ + "stderr:\n"@ + err
    }
}

/// What is said of the output of a command.
pub fn describe_output(stdout: &str, stderr: &str) -> (result: String)
    ensures
        result@ == output_message(stdout@, stderr@),
{
    let stdout = text::trim(stdout);
    let stderr = text::trim(stderr);
    let mut message = String::new();
    if !stdout.as_str().is_empty() {
        message.append("stdout:\n");
        message.append(stdout.as_str());
        message.append("\n");
    }
    if !stderr.as_str().is_empty() {
        message.append("stderr:\n");
        message.append(stderr.as_str());
    }
    proof {
        reveal_strlit("stdout:\n");
        reveal_strlit("stderr:\n");
    }
    if message.as_str().is_empty() {
        "resolver produced no output".to_owned()
    } else {
        message
    }
}

/// What is said of the output of a command, in the bytes that it wrote.
pub fn command_output(stdout: &[u8], stderr: &[u8]) -> (result: String)
    ensures
        result@ == output_message(text::decoded(stdout@), text::decoded(stderr@)),
{
    describe_output(text::decode_lossy(stdout).as_str(), text::decode_lossy(stderr).as_str())
}

/// How an attempt to run pip failed.
#[derive(Debug)]
pub enum AttemptFailure {
    /// pip ran and reported failure.
    Exited { stdout: Vec<u8>, stderr: Vec<u8> },
    /// pip did not start.
    NotStarted { error: String },
}

/// The view of an [`AttemptFailure`].
pub enum FailureView {
    Exited { stdout: Seq<u8>, stderr: Seq<u8> },
    NotStarted { error: Seq<char> },
}

impl View for AttemptFailure {
    type V = FailureView;

    open spec fn view(&self) -> FailureView {
        match self {
            AttemptFailure::Exited { stdout, stderr } => FailureView::Exited {
                stdout: stdout@,
                stderr: stderr@,
            },
            AttemptFailure::NotStarted { error } => FailureView::NotStarted { error: error@ },
        }
    }
}

impl FailureView {
    /// What is said of a failed attempt with the given command.
    pub open spec fn message(self, command: CommandView) -> Seq<char> {
        match self {
            FailureView::Exited { stdout, stderr } => command.display() + " failed:\n"@
                + output_message(text::decoded(stdout), text::decoded(stderr)),
            FailureView::NotStarted { error } => command.display() + " failed to start: "@ + error,
        }
    }
}

impl AttemptFailure {
    /// What is said of a failed attempt with the given command.
    pub fn message(&self, command: &ResolverCommand) -> (result: String)
        ensures
            result@ == self@.message(command@),
    {
        let mut message = command.display();
        match self {
            AttemptFailure::Exited { stdout, stderr } => {
                message.append(" failed:\n");
                message.append(command_output(stdout.as_slice(), stderr.as_slice()).as_str());
            },
            AttemptFailure::NotStarted { error } => {
                message.append(" failed to start: ");
                message.append(error.as_str());
            },
        }
        message
    }
}

/// One call of pip. The path of the report file stands between the two lists of
/// arguments.
#[derive(Debug, PartialEq, Eq)]
pub struct Invocation {
    pub program: String,
    pub leading_args: Vec<String>,
    pub trailing_args: Vec<String>,
}

/// The view of an [`Invocation`].
pub struct InvocationView {
    pub program: Seq<char>,
    pub leading_args: Seq<Seq<char>>,
    pub trailing_args: Seq<Seq<char>>,
}

impl View for Invocation {
    type V = InvocationView;

    open spec fn view(&self) -> InvocationView {
        InvocationView {
            program: self.program@,
            leading_args: text::views(self.leading_args@),
            trailing_args: text::views(self.trailing_args@),
        }
    }
}

/// No way to run pip resolved the requirement.
#[derive(Debug)]
pub struct ResolverFailure {
    pub requirement: String,
    pub attempt_errors: Vec<String>,
}

/// What is said where no way to run pip resolved the requirement: what is said of each
/// attempt, on lines of their own.
pub open spec fn failure_message(requirement: Seq<char>, attempt_errors: Seq<Seq<char>>) -> Seq<
    char,
> {
    "Python package resolver failed for "@ + requirement + ":\n"@ + text::joined(
        attempt_errors,
        "\n"@,
    )
}

impl ResolverFailure {
    /// The message of this failure.
    pub fn message(&self) -> (result: String)
        ensures
            result@ == failure_message(self.requirement@, text::views(self.attempt_errors@)),
    {
        let mut message = "Python package resolver failed for ".to_owned();
        message.append(self.requirement.as_str());
        message.append(":\n");
        message.append(text::join(&self.attempt_errors, "\n").as_str());
        message
    }
}

/// What to do next to resolve a package.
#[derive(Debug)]
pub enum ResolverAction {
    /// Call pip.
    Run(Invocation),
    /// Read the report that pip wrote.
    ReadReport,
    /// Every way to run pip failed.
    GiveUp(ResolverFailure),
}

/// The view of a [`ResolverAction`].
pub enum ActionView {
    Run(InvocationView),
    ReadReport,
    GiveUp { requirement: Seq<char>, attempt_errors: Seq<Seq<char>> },
}

impl View for ResolverAction {
    type V = ActionView;

    open spec fn view(&self) -> ActionView {
        match self {
            ResolverAction::Run(invocation) => ActionView::Run(invocation@),
            ResolverAction::ReadReport => ActionView::ReadReport,
            ResolverAction::GiveUp(failure) => ActionView::GiveUp {
                requirement: failure.requirement@,
                attempt_errors: text::views(failure.attempt_errors@),
            },
        }
    }
}

/// The resolution of a package, as far as it has come: the commands are tried one
/// after another until one succeeds, and each failed attempt leaves a message.
#[derive(Debug)]
pub struct Resolution {
    requirement: String,
    resolver_args: Vec<String>,
    commands: Vec<ResolverCommand>,
    attempt_errors: Vec<String>,
    succeeded: bool,
}

/// The view of a [`Resolution`].
pub struct ResolutionView {
    pub requirement: Seq<char>,
    pub resolver_args: Seq<Seq<char>>,
    pub commands: Seq<CommandView>,
    pub attempt_errors: Seq<Seq<char>>,
    pub succeeded: bool,
}

impl View for Resolution {
    type V = ResolutionView;

    closed spec fn view(&self) -> ResolutionView {
        ResolutionView {
            requirement: self.requirement@,
            resolver_args: text::views(self.resolver_args@),
            commands: command_views(self.commands@),
            attempt_errors: text::views(self.attempt_errors@),
            succeeded: self.succeeded,
        }
    }
}

/// The pip subcommand and options of every call, up to the path of the report.
pub open spec fn pip_options() -> Seq<Seq<char>> {
    seq![
        "install"@,
        "--disable-pip-version-check"@,
        "--no-input"@,
        "--dry-run"@,
        "--ignore-installed"@,
        "--report"@,
    ]
}

impl ResolutionView {
    /// A resolution before its first attempt.
    pub open spec fn start(
        package_name: Seq<char>,
        package_version: Option<Seq<char>>,
        resolver_args: Seq<Seq<char>>,
        python: Option<Seq<char>>,
    ) -> ResolutionView {
        ResolutionView {
            requirement: requirement(package_name, package_version),
            resolver_args,
            commands: pip_commands(python),
            attempt_errors: Seq::empty(),
            succeeded: false,
        }
    }

    /// Whether every command was tried.
    pub open spec fn exhausted(self) -> bool {
        self.attempt_errors.len() >= self.commands.len()
    }

    /// The command that is to be tried next.
    pub open spec fn next_command(self) -> CommandView {
        self.commands[self.attempt_errors.len() as int]
    }

    /// What to do next.
    pub open spec fn action(self) -> ActionView {
        if self.succeeded {
            ActionView::ReadReport
        } else if self.exhausted() {
            ActionView::GiveUp {
                requirement: self.requirement,
                attempt_errors: self.attempt_errors,
            }
        } else {
            ActionView::Run(
                InvocationView {
                    program: self.next_command().program,
                    leading_args: self.next_command().prefix_args + pip_options(),
                    trailing_args: self.resolver_args.push(self.requirement),
                },
            )
        }
    }

    /// Whether no command is to be tried any more.
    pub open spec fn ended(self) -> bool {
        self.succeeded || self.exhausted()
    }

    /// The resolution after the next command succeeded.
    pub open spec fn after_success(self) -> ResolutionView {
        if self.ended() {
            self
        } else {
            ResolutionView { succeeded: true, ..self }
        }
    }

    /// The resolution after the next command failed.
    pub open spec fn after(self, failure: FailureView) -> ResolutionView {
        if self.ended() {
            self
        } else {
            ResolutionView {
                attempt_errors: self.attempt_errors.push(failure.message(self.next_command())),
                ..self
            }
        }
    }
}

fn pip_option_strings() -> (result: Vec<String>)
    ensures
        text::views(result@) == pip_options(),
{
    let result = vec![
        "install".to_owned(),
        "--disable-pip-version-check".to_owned(),
        "--no-input".to_owned(),
        "--dry-run".to_owned(),
        "--ignore-installed".to_owned(),
        "--report".to_owned(),
    ];
    assert(text::views(result@) == pip_options());
    result
}

impl Resolution {
    /// Start to resolve a package. `python` is the Python executable that the
    /// environment chooses.
    pub fn new(
        package_name: &str,
        package_version: Option<&str>,
        extension_args: &[String],
        python: Option<String>,
    ) -> (result: Result<Resolution, ArgumentError>)
        ensures
            match result {
                Ok(resolution) => first_fault(text::views(extension_args@)) is None && resolution@
                    == ResolutionView::start(
                    package_name@,
                    text::optional_view(package_version),
                    text::views(extension_args@),
                    match python {
                        Some(python) => Some(python@),
                        None => None,
                    },
                ),
                Err(error) => first_fault(text::views(extension_args@)) == Some(error@),
            },
    {
        let resolver_args = match resolver_args_from_extension_args(extension_args) {
            Ok(resolver_args) => resolver_args,
            Err(error) => {
                return Err(error);
            },
        };
        let resolution = Resolution {
            requirement: package_requirement(package_name, package_version),
            resolver_args,
            commands: pip_resolver_commands(python),
            attempt_errors: Vec::new(),
            succeeded: false,
        };
        assert(text::views(resolution.attempt_errors@) == Seq::<Seq<char>>::empty());
        Ok(resolution)
    }

    /// What to do next.
    pub fn action(&self) -> (result: ResolverAction)
        ensures
            result@ == self@.action(),
    {
        if self.succeeded {
            return ResolverAction::ReadReport;
        }
        let attempts = self.attempt_errors.len();
        if attempts >= self.commands.len() {
            return ResolverAction::GiveUp(
                ResolverFailure {
                    requirement: self.requirement.clone(),
                    attempt_errors: text::copy_all(&self.attempt_errors),
                },
            );
        }
        let command = &self.commands[attempts];
        let mut leading_args = text::copy_all(&command.prefix_args);
        text::append_all(&mut leading_args, &pip_option_strings());
        let mut trailing_args = text::copy_all(&self.resolver_args);
        trailing_args.push(self.requirement.clone());
        assert(text::views(leading_args@) == self@.next_command().prefix_args + pip_options());
        assert(text::views(trailing_args@) == self@.resolver_args.push(self@.requirement));
        ResolverAction::Run(
            Invocation { program: command.program.clone(), leading_args, trailing_args },
        )
    }

    /// Record that the next command succeeded. Where the attempts have ended already,
    /// nothing changes.
    pub fn attempt_succeeded(&mut self)
        ensures
            final(self)@ == old(self)@.after_success(),
    {
        if self.attempt_errors.len() < self.commands.len() {
            self.succeeded = true;
        }
    }

    /// Record that the next command failed. Where the attempts have ended already,
    /// nothing changes.
    pub fn attempt_failed(&mut self, failure: AttemptFailure)
        ensures
            final(self)@ == old(self)@.after(failure@),
    {
        let attempts = self.attempt_errors.len();
        if !self.succeeded && attempts < self.commands.len() {
            let message = failure.message(&self.commands[attempts]);
            self.attempt_errors.push(message);
            assert(text::views(self.attempt_errors@) == old(self)@.attempt_errors.push(message@));
        }
    }
}

/// The name of the directory that a resolution works in, made of a label, the number of
/// the process and the time.
pub open spec fn directory_name(label: Seq<char>, process_id: nat, timestamp: nat) -> Seq<char> {
    "thirdpass-py-resolver-"@ + label + "-"@ + text::decimal(process_id) + "-"@ + text::decimal(
        timestamp,
    )
}

/// The name of the directory that a resolution works in.
pub fn temp_directory_name(label: &str, process_id: u32, timestamp: u128) -> (result: String)
    ensures
        result@ == directory_name(label@, process_id as nat, timestamp as nat),
{
    let mut name = "thirdpass-py-resolver-".to_owned();
    name.append(label);
    name.append("-");
    name.append(text::decimal_text(process_id as u128).as_str());
    name.append("-");
    name.append(text::decimal_text(timestamp).as_str());
    name
}

proof fn options_hold_no_value(option: Seq<char>)
    requires
        is_value_option(option) || is_flag_option(option),
    ensures
        !option.contains('='),
        !(is_value_option(option) && is_flag_option(option)),
{
    reveal_strlit("--index-url");
    reveal_strlit("-i");
    reveal_strlit("--extra-index-url");
    reveal_strlit("--find-links");
    reveal_strlit("-f");
    reveal_strlit("--trusted-host");
    reveal_strlit("--proxy");
    reveal_strlit("--cert");
    reveal_strlit("--client-cert");
    reveal_strlit("--timeout");
    reveal_strlit("--retries");
    reveal_strlit("--python-version");
    reveal_strlit("--platform");
    reveal_strlit("--implementation");
    reveal_strlit("--abi");
    reveal_strlit("--only-binary");
    reveal_strlit("--no-binary");
    reveal_strlit("--constraint");
    reveal_strlit("-c");
    reveal_strlit("--no-index");
    reveal_strlit("--pre");
    reveal_strlit("--prefer-binary");
    reveal_strlit("--no-build-isolation");
    reveal_strlit("--no-cache-dir");
    assert(is_flag_option(option) ==> option.len() != 11);
    assert(option[2] != 'n' ==> option != "--no-index"@ && option != "--no-cache-dir"@);
    assert(option[2] == 'p' ==> option != "--abi"@);
}

/// What an option expects does not depend on a value that is attached to it.
pub proof fn attached_value_keeps_option(option: Seq<char>, value: Seq<char>)
    ensures
        argument_spec(option + seq!['='] + value) == argument_spec(option),
{
    text::lemma_until(option, '=', value);
}

/// Every supported option is accepted under its own name: a flag by itself, an
/// option with a value before a value that does not start with `-`.
pub proof fn supported_options_are_accepted(option: Seq<char>, value: Seq<char>)
    ensures
        is_flag_option(option) ==> first_fault(seq![option]) is None,
        is_value_option(option) ==> (first_fault(seq![option, value]) is None
            <==> !text::has_prefix(value, "-"@)),
        is_value_option(option) ==> first_fault(seq![option]) == Some(
            ArgumentFault::MissingValue(option),
        ),
{
    if is_value_option(option) || is_flag_option(option) {
        options_hold_no_value(option);
        text::lemma_until(option, '=', Seq::empty());
        let alone = seq![option];
        let pair = seq![option, value];
        assert(first_fault(alone.skip(1)) is None);
        assert(first_fault(pair.skip(2)) is None);
    }
}

/// A long option with a value may carry that value behind an `=`, whatever the
/// value is.
pub proof fn attached_values_are_accepted(option: Seq<char>, value: Seq<char>)
    requires
        is_value_option(option),
        text::has_prefix(option, "--"@),
    ensures
        first_fault(seq![option + seq!['='] + value]) is None,
{
    options_hold_no_value(option);
    attached_value_keeps_option(option, value);
    text::lemma_until(option, '=', Seq::empty());
    let argument = option + seq!['='] + value;
    assert(argument.subrange(0, "--"@.len() as int) == option.subrange(0, "--"@.len() as int));
    assert(argument[option.len() as int] == '=');
    assert(first_fault(seq![argument].skip(1)) is None);
}

/// Behind arguments that are accepted, the faults are those of what follows.
pub proof fn accepted_arguments_join(accepted: Seq<Seq<char>>, rest: Seq<Seq<char>>)
    requires
        first_fault(accepted) is None,
    ensures
        first_fault(accepted + rest) == first_fault(rest),
    decreases accepted.len(),
{
    let whole = accepted + rest;
    if accepted.len() == 0 {
        assert(whole == rest);
    } else if !takes_next(accepted[0]) {
        accepted_arguments_join(accepted.skip(1), rest);
        assert(whole.skip(1) == accepted.skip(1) + rest);
    } else {
        accepted_arguments_join(accepted.skip(2), rest);
        assert(whole.skip(2) == accepted.skip(2) + rest);
    }
}

/// An option that is not supported is rejected by name wherever it stands behind
/// accepted arguments.
pub proof fn unsupported_arguments_are_named(
    accepted: Seq<Seq<char>>,
    argument: Seq<char>,
    rest: Seq<Seq<char>>,
)
    requires
        first_fault(accepted) is None,
        argument_spec(argument) is None,
    ensures
        first_fault(accepted + seq![argument] + rest) == Some(
            ArgumentFault::Unsupported(argument),
        ),
{
    let tail = seq![argument] + rest;
    accepted_arguments_join(accepted, tail);
    assert(accepted + seq![argument] + rest == accepted + tail);
    assert(tail[0] == argument);
}

/// Something is said of the output of every command.
pub proof fn output_message_is_not_empty(stdout: Seq<char>, stderr: Seq<char>)
    ensures
        output_message(stdout, stderr).len() > 0,
{
    reveal_strlit("resolver produced no output");
    reveal_strlit("stdout:\n");
    reveal_strlit("stderr:\n");
}

/// A resolution after a series of failed attempts.
pub open spec fn after_all(resolution: ResolutionView, failures: Seq<FailureView>) -> ResolutionView
    decreases failures.len(),
{
    if failures.len() == 0 {
        resolution
    } else {
        after_all(resolution, failures.drop_last()).after(failures.last())
    }
}

/// The ways to run pip are tried in their order, each once. After as many failures
/// as there are ways the resolution gives up, with one message for each attempt in
/// the order of the attempts.
pub proof fn commands_are_tried_in_order(resolution: ResolutionView, failures: Seq<FailureView>)
    requires
        resolution.attempt_errors.len() == 0,
        !resolution.succeeded,
        failures.len() <= resolution.commands.len(),
    ensures
        !after_all(resolution, failures).succeeded,
        after_all(resolution, failures).attempt_errors == Seq::new(
            failures.len(),
            |i: int| failures[i].message(resolution.commands[i]),
        ),
        failures.len() < resolution.commands.len() ==> after_all(resolution, failures).action()
            == ActionView::Run(
            InvocationView {
                program: resolution.commands[failures.len() as int].program,
                leading_args: resolution.commands[failures.len() as int].prefix_args
                    + pip_options(),
                trailing_args: resolution.resolver_args.push(resolution.requirement),
            },
        ),
        failures.len() == resolution.commands.len() ==> after_all(resolution, failures).action()
            == (ActionView::GiveUp {
            requirement: resolution.requirement,
            attempt_errors: after_all(resolution, failures).attempt_errors,
        }),
    decreases failures.len(),
{
    let now = after_all(resolution, failures);
    resolution_keeps_its_task(resolution, failures);
    if failures.len() > 0 {
        commands_are_tried_in_order(resolution, failures.drop_last());
    }
    assert(now.attempt_errors == Seq::new(
        failures.len(),
        |i: int| failures[i].message(resolution.commands[i]),
    ));
}

/// How an attempt to run pip ended.
pub enum AttemptView {
    Succeeded,
    Failed(FailureView),
}

/// A resolution after a series of attempts.
pub open spec fn after_attempts(
    resolution: ResolutionView,
    attempts: Seq<AttemptView>,
) -> ResolutionView
    decreases attempts.len(),
{
    if attempts.len() == 0 {
        resolution
    } else {
        let before = after_attempts(resolution, attempts.drop_last());
        match attempts.last() {
            AttemptView::Succeeded => before.after_success(),
            AttemptView::Failed(failure) => before.after(failure),
        }
    }
}

/// The first success ends the attempts: after failures of the earlier ways to run pip
/// and a success of the next one the report is read, and no other way is tried,
/// whatever is recorded after that.
pub proof fn success_ends_the_attempts(
    resolution: ResolutionView,
    failures: Seq<FailureView>,
    attempts: Seq<AttemptView>,
)
    requires
        resolution.attempt_errors.len() == 0,
        !resolution.succeeded,
        failures.len() < resolution.commands.len(),
    ensures
        after_attempts(after_all(resolution, failures).after_success(), attempts) == after_all(
            resolution,
            failures,
        ).after_success(),
        after_all(resolution, failures).after_success().action() == ActionView::ReadReport,
{
    commands_are_tried_in_order(resolution, failures);
    ended_resolutions_stay(after_all(resolution, failures).after_success(), attempts);
}

/// Once the attempts of a resolution have ended, nothing changes it.
pub proof fn ended_resolutions_stay(resolution: ResolutionView, attempts: Seq<AttemptView>)
    requires
        resolution.ended(),
    ensures
        after_attempts(resolution, attempts) == resolution,
    decreases attempts.len(),
{
    if attempts.len() > 0 {
        ended_resolutions_stay(resolution, attempts.drop_last());
    }
}

/// The report is read only after a success.
pub proof fn reports_are_read_after_success(
    resolution: ResolutionView,
    attempts: Seq<AttemptView>,
)
    requires
        !resolution.succeeded,
        after_attempts(resolution, attempts).action() is ReadReport,
    ensures
        attempts.contains(AttemptView::Succeeded),
    decreases attempts.len(),
{
    if attempts.len() > 0 {
        let last = attempts.len() - 1;
        if attempts[last] is Succeeded {
            assert(attempts[last] == AttemptView::Succeeded);
        } else {
            reports_are_read_after_success(resolution, attempts.drop_last());
            let i = attempts.drop_last().index_of(AttemptView::Succeeded);
            assert(attempts[i] == AttemptView::Succeeded);
        }
    }
}

/// Failed attempts change neither the requirement nor the arguments nor the ways to
/// run pip.
pub proof fn resolution_keeps_its_task(resolution: ResolutionView, failures: Seq<FailureView>)
    ensures
        after_all(resolution, failures).requirement == resolution.requirement,
        after_all(resolution, failures).resolver_args == resolution.resolver_args,
        after_all(resolution, failures).commands == resolution.commands,
    decreases failures.len(),
{
    if failures.len() > 0 {
        resolution_keeps_its_task(resolution, failures.drop_last());
    }
}

/// Every call of pip in a resolution ends with the arguments that were given, as
/// they were given and in their order, and with the requirement. None installs
/// anything: each is a dry run.
pub proof fn arguments_reach_pip(
    package_name: Seq<char>,
    package_version: Option<Seq<char>>,
    arguments: Seq<Seq<char>>,
    python: Option<Seq<char>>,
    failures: Seq<FailureView>,
)
    requires
        failures.len() < pip_commands(python).len(),
    ensures
        after_all(
            ResolutionView::start(package_name, package_version, arguments, python),
            failures,
        ).action() matches ActionView::Run(invocation) && invocation.trailing_args
            == arguments.push(requirement(package_name, package_version))
            && invocation.leading_args.contains("--dry-run"@) && invocation.program
            == pip_commands(python)[failures.len() as int].program,
{
    let start = ResolutionView::start(package_name, package_version, arguments, python);
    commands_are_tried_in_order(start, failures);
    let prefix = pip_commands(python)[failures.len() as int].prefix_args;
    let leading_args = prefix + pip_options();
    assert(pip_options()[3] == "--dry-run"@);
    assert(leading_args[prefix.len() as int + 3] == "--dry-run"@);
}

/// Whether an argument is read as an option with a value: alone it lacks its value, and
/// it takes the argument behind it as its value unless that starts with `-`.
pub open spec fn takes_the_next(
    argument: Seq<char>,
    value: Seq<char>,
    rest: Seq<Seq<char>>,
) -> bool {
    &&& argument_spec(argument) == Some(ResolverArgSpec::Value)
    &&& first_fault(seq![argument]) == Some(ArgumentFault::MissingValue(argument))
    &&& first_fault(seq![argument, value] + rest) == (if value.len() > 0 && value[0] == '-' {
        Some(ArgumentFault::MissingValue(argument))
    } else {
        first_fault(rest)
    })
}

/// Whether an argument is read by itself: what follows it is read as if it were not
/// there.
pub open spec fn stands_alone(argument: Seq<char>, rest: Seq<Seq<char>>) -> bool {
    &&& first_fault(seq![argument]) is None
    &&& first_fault(seq![argument] + rest) == first_fault(rest)
}

proof fn next_is_taken(argument: Seq<char>, value: Seq<char>, rest: Seq<Seq<char>>)
    requires
        takes_next(argument),
    ensures
        takes_the_next(argument, value, rest),
{
    reveal_strlit("-");
    let alone = seq![argument];
    let pair = seq![argument, value] + rest;
    assert(pair.skip(2) == rest);
    assert(pair[0] == argument && pair[1] == value);
    text::prefix_has_a_rest(value, "-"@, value.skip(1));
    if value.len() > 0 && value[0] == '-' {
        assert("-"@ + value.skip(1) == value);
    }
}

proof fn argument_stands_alone(argument: Seq<char>, rest: Seq<Seq<char>>)
    requires
        argument_spec(argument) is Some,
        !takes_next(argument),
    ensures
        stands_alone(argument, rest),
{
    let alone = seq![argument];
    let whole = seq![argument] + rest;
    assert(first_fault(alone.skip(1)) is None);
    assert(whole.skip(1) == rest);
    assert(whole[0] == argument);
}

proof fn value_option_takes_the_next(option: Seq<char>, value: Seq<char>, rest: Seq<Seq<char>>)
    requires
        is_value_option(option),
    ensures
        takes_the_next(option, value, rest),
{
    options_hold_no_value(option);
    text::lemma_until(option, '=', Seq::empty());
    next_is_taken(option, value, rest);
}

/// Each option with a value, under each of its names, takes the argument behind it as
/// its value.
pub proof fn value_options_take_the_next(value: Seq<char>, rest: Seq<Seq<char>>)
    ensures
        takes_the_next("--index-url"@, value, rest),
        takes_the_next("-i"@, value, rest),
        takes_the_next("--extra-index-url"@, value, rest),
        takes_the_next("--find-links"@, value, rest),
        takes_the_next("-f"@, value, rest),
        takes_the_next("--trusted-host"@, value, rest),
        takes_the_next("--proxy"@, value, rest),
        takes_the_next("--cert"@, value, rest),
        takes_the_next("--client-cert"@, value, rest),
        takes_the_next("--timeout"@, value, rest),
        takes_the_next("--retries"@, value, rest),
        takes_the_next("--python-version"@, value, rest),
        takes_the_next("--platform"@, value, rest),
        takes_the_next("--implementation"@, value, rest),
        takes_the_next("--abi"@, value, rest),
        takes_the_next("--only-binary"@, value, rest),
        takes_the_next("--no-binary"@, value, rest),
        takes_the_next("--constraint"@, value, rest),
        takes_the_next("-c"@, value, rest),
{
    value_option_takes_the_next("--index-url"@, value, rest);
    value_option_takes_the_next("--extra-index-url"@, value, rest);
    value_option_takes_the_next("--find-links"@, value, rest);
    value_option_takes_the_next("--trusted-host"@, value, rest);
    value_option_takes_the_next("--proxy"@, value, rest);
    value_option_takes_the_next("--cert"@, value, rest);
    value_option_takes_the_next("--client-cert"@, value, rest);
    value_option_takes_the_next("--timeout"@, value, rest);
    value_option_takes_the_next("--retries"@, value, rest);
    value_option_takes_the_next("--python-version"@, value, rest);
    value_option_takes_the_next("--platform"@, value, rest);
    value_option_takes_the_next("--implementation"@, value, rest);
    value_option_takes_the_next("--abi"@, value, rest);
    value_option_takes_the_next("--only-binary"@, value, rest);
    value_option_takes_the_next("--no-binary"@, value, rest);
    value_option_takes_the_next("--constraint"@, value, rest);
    value_option_takes_the_next("-i"@, value, rest);
    value_option_takes_the_next("-f"@, value, rest);
    value_option_takes_the_next("-c"@, value, rest);
}

proof fn long_option_carries_its_value(option: Seq<char>, value: Seq<char>, rest: Seq<Seq<char>>)
    requires
        is_value_option(option),
        option.len() >= 2,
        option[0] == '-',
        option[1] == '-',
    ensures
        stands_alone(option + seq!['='] + value, rest),
{
    reveal_strlit("--");
    let argument = option + seq!['='] + value;
    options_hold_no_value(option);
    text::lemma_until(option, '=', value);
    assert(argument.subrange(0, 2) == "--"@);
    assert(argument[option.len() as int] == '=');
    argument_stands_alone(argument, rest);
}

/// Each long option with a value may carry it behind an `=`, whatever the value is, and
/// then takes no other argument.
pub proof fn long_options_carry_their_value(value: Seq<char>, rest: Seq<Seq<char>>)
    ensures
        stands_alone("--index-url"@ + seq!['='] + value, rest),
        stands_alone("--extra-index-url"@ + seq!['='] + value, rest),
        stands_alone("--find-links"@ + seq!['='] + value, rest),
        stands_alone("--trusted-host"@ + seq!['='] + value, rest),
        stands_alone("--proxy"@ + seq!['='] + value, rest),
        stands_alone("--cert"@ + seq!['='] + value, rest),
        stands_alone("--client-cert"@ + seq!['='] + value, rest),
        stands_alone("--timeout"@ + seq!['='] + value, rest),
        stands_alone("--retries"@ + seq!['='] + value, rest),
        stands_alone("--python-version"@ + seq!['='] + value, rest),
        stands_alone("--platform"@ + seq!['='] + value, rest),
        stands_alone("--implementation"@ + seq!['='] + value, rest),
        stands_alone("--abi"@ + seq!['='] + value, rest),
        stands_alone("--only-binary"@ + seq!['='] + value, rest),
        stands_alone("--no-binary"@ + seq!['='] + value, rest),
        stands_alone("--constraint"@ + seq!['='] + value, rest),
{
    reveal_strlit("--index-url");
    reveal_strlit("--extra-index-url");
    reveal_strlit("--find-links");
    reveal_strlit("--trusted-host");
    reveal_strlit("--proxy");
    reveal_strlit("--cert");
    reveal_strlit("--client-cert");
    reveal_strlit("--timeout");
    reveal_strlit("--retries");
    reveal_strlit("--python-version");
    reveal_strlit("--platform");
    reveal_strlit("--implementation");
    reveal_strlit("--abi");
    reveal_strlit("--only-binary");
    reveal_strlit("--no-binary");
    reveal_strlit("--constraint");
    long_option_carries_its_value("--index-url"@, value, rest);
    long_option_carries_its_value("--extra-index-url"@, value, rest);
    long_option_carries_its_value("--find-links"@, value, rest);
    long_option_carries_its_value("--trusted-host"@, value, rest);
    long_option_carries_its_value("--proxy"@, value, rest);
    long_option_carries_its_value("--cert"@, value, rest);
    long_option_carries_its_value("--client-cert"@, value, rest);
    long_option_carries_its_value("--timeout"@, value, rest);
    long_option_carries_its_value("--retries"@, value, rest);
    long_option_carries_its_value("--python-version"@, value, rest);
    long_option_carries_its_value("--platform"@, value, rest);
    long_option_carries_its_value("--implementation"@, value, rest);
    long_option_carries_its_value("--abi"@, value, rest);
    long_option_carries_its_value("--only-binary"@, value, rest);
    long_option_carries_its_value("--no-binary"@, value, rest);
    long_option_carries_its_value("--constraint"@, value, rest);
}

proof fn short_option_carries_no_value(
    option: Seq<char>,
    attached: Seq<char>,
    value: Seq<char>,
    rest: Seq<Seq<char>>,
)
    requires
        is_value_option(option),
        option.len() == 2,
        option[1] != '-',
    ensures
        takes_the_next(option + seq!['='] + attached, value, rest),
{
    reveal_strlit("--");
    let argument = option + seq!['='] + attached;
    options_hold_no_value(option);
    text::lemma_until(option, '=', attached);
    assert(argument.subrange(0, 2)[1] != "--"@[1]);
    next_is_taken(argument, value, rest);
}

/// A short option takes the argument behind it as its value, also where something is
/// attached to it.
pub proof fn short_options_carry_no_value(
    attached: Seq<char>,
    value: Seq<char>,
    rest: Seq<Seq<char>>,
)
    ensures
        takes_the_next("-i"@ + seq!['='] + attached, value, rest),
        takes_the_next("-f"@ + seq!['='] + attached, value, rest),
        takes_the_next("-c"@ + seq!['='] + attached, value, rest),
{
    reveal_strlit("-i");
    reveal_strlit("-f");
    reveal_strlit("-c");
    short_option_carries_no_value("-i"@, attached, value, rest);
    short_option_carries_no_value("-f"@, attached, value, rest);
    short_option_carries_no_value("-c"@, attached, value, rest);
}

proof fn flag_option_stands_alone(option: Seq<char>, attached: Seq<char>, rest: Seq<Seq<char>>)
    requires
        is_flag_option(option),
    ensures
        argument_spec(option) == Some(ResolverArgSpec::Flag),
        stands_alone(option, rest),
        stands_alone(option + seq!['='] + attached, rest),
{
    options_hold_no_value(option);
    text::lemma_until(option, '=', attached);
    argument_stands_alone(option, rest);
    argument_stands_alone(option + seq!['='] + attached, rest);
}

/// Each flag is accepted by itself, and takes no other argument.
pub proof fn flags_stand_alone(attached: Seq<char>, rest: Seq<Seq<char>>)
    ensures
        argument_spec("--no-index"@) == Some(ResolverArgSpec::Flag),
        stands_alone("--no-index"@, rest),
        stands_alone("--no-index"@ + seq!['='] + attached, rest),
        argument_spec("--pre"@) == Some(ResolverArgSpec::Flag),
        stands_alone("--pre"@, rest),
        stands_alone("--pre"@ + seq!['='] + attached, rest),
        argument_spec("--prefer-binary"@) == Some(ResolverArgSpec::Flag),
        stands_alone("--prefer-binary"@, rest),
        stands_alone("--prefer-binary"@ + seq!['='] + attached, rest),
        argument_spec("--no-build-isolation"@) == Some(ResolverArgSpec::Flag),
        stands_alone("--no-build-isolation"@, rest),
        stands_alone("--no-build-isolation"@ + seq!['='] + attached, rest),
        argument_spec("--no-cache-dir"@) == Some(ResolverArgSpec::Flag),
        stands_alone("--no-cache-dir"@, rest),
        stands_alone("--no-cache-dir"@ + seq!['='] + attached, rest),
{
    flag_option_stands_alone("--no-index"@, attached, rest);
    flag_option_stands_alone("--pre"@, attached, rest);
    flag_option_stands_alone("--prefer-binary"@, attached, rest);
    flag_option_stands_alone("--no-build-isolation"@, attached, rest);
    flag_option_stands_alone("--no-cache-dir"@, attached, rest);
}

/// An argument under any other name is rejected, whatever is attached to it and
/// whatever follows. Without arguments there is nothing to reject.
pub proof fn other_arguments_are_rejected(
    name: Seq<char>,
    attached: Seq<char>,
    rest: Seq<Seq<char>>,
)
    requires
        !name.contains('='),
        name != "--index-url"@,
        name != "--extra-index-url"@,
        name != "--find-links"@,
        name != "--trusted-host"@,
        name != "--proxy"@,
        name != "--cert"@,
        name != "--client-cert"@,
        name != "--timeout"@,
        name != "--retries"@,
        name != "--python-version"@,
        name != "--platform"@,
        name != "--implementation"@,
        name != "--abi"@,
        name != "--only-binary"@,
        name != "--no-binary"@,
        name != "--constraint"@,
        name != "-i"@,
        name != "-f"@,
        name != "-c"@,
        name != "--no-index"@,
        name != "--pre"@,
        name != "--prefer-binary"@,
        name != "--no-build-isolation"@,
        name != "--no-cache-dir"@,
    ensures
        argument_spec(name) is None,
        first_fault(seq![name] + rest) == Some(ArgumentFault::Unsupported(name)),
        argument_spec(name + seq!['='] + attached) is None,
        first_fault(seq![name + seq!['='] + attached] + rest) == Some(
            ArgumentFault::Unsupported(name + seq!['='] + attached),
        ),
        first_fault(Seq::empty()) is None,
{
    text::lemma_until(name, '=', attached);
    assert((seq![name] + rest)[0] == name);
    let argument = name + seq!['='] + attached;
    assert((seq![argument] + rest)[0] == argument);
}

/// A long argument carries a value exactly where it holds an `=`, and no other argument
/// carries one.
pub proof fn long_arguments_carry_values(name: Seq<char>, value: Seq<char>)
    ensures
        carries_value("--"@ + name + seq!['='] + value),
        !name.contains('=') ==> !carries_value(name),
        name.len() < 2 || name[0] != '-' || name[1] != '-' ==> !carries_value(name),
{
    reveal_strlit("--");
    let argument = "--"@ + name + seq!['='] + value;
    assert(argument.subrange(0, 2) == "--"@);
    assert(argument[2 + name.len() as int] == '=');
    if text::has_prefix(name, "--"@) {
        assert(name.subrange(0, 2)[0] == name[0] && name.subrange(0, 2)[1] == name[1]);
    }
}

/// The messages of rejected arguments name the argument as it was given.
pub proof fn argument_messages(argument: Seq<char>)
    ensures
        ArgumentFault::Unsupported(argument).message() == "Unsupported Python resolver argument: "@
            + argument + ". Supported pip arguments: "@ + SUPPORTED_RESOLVER_ARGS@,
        ArgumentFault::MissingValue(argument).message() == "Python resolver argument "@ + argument
            + " requires a value."@,
{
}

/// A package is asked for by its name, and by its name, `==` and its version where it
/// has one.
pub proof fn requirements_pin_the_version(package_name: Seq<char>, package_version: Seq<char>)
    ensures
        requirement(package_name, None) == package_name,
        requirement(package_name, Some(package_version)) == package_name + seq!['=', '=']
            + package_version,
{
    reveal_strlit("==");
    assert("=="@ == seq!['=', '=']);
}

/// A chosen Python executable runs pip as a module and is the only way. Otherwise there
/// are three ways, in this order: `python3 -m pip`, `pip3` and `pip`.
pub proof fn ways_to_run_pip(python: Seq<char>)
    ensures
        pip_commands(Some(python)).len() == 1,
        pip_commands(Some(python))[0].program == python,
        pip_commands(Some(python))[0].prefix_args == seq!["-m"@, "pip"@],
        pip_commands(None).len() == 3,
        pip_commands(None)[0].program == "python3"@,
        pip_commands(None)[0].prefix_args == seq!["-m"@, "pip"@],
        pip_commands(None)[1].program == "pip3"@,
        pip_commands(None)[1].prefix_args.len() == 0,
        pip_commands(None)[2].program == "pip"@,
        pip_commands(None)[2].prefix_args.len() == 0,
{
}

/// A command is shown as its program and its arguments with a space before each
/// argument.
pub proof fn commands_are_shown_in_full(
    program: Seq<char>,
    prefix_args: Seq<Seq<char>>,
    argument: Seq<char>,
)
    ensures
        (CommandView { program, prefix_args: Seq::empty() }).display() == program,
        (CommandView { program, prefix_args: prefix_args.push(argument) }).display() == (
        CommandView { program, prefix_args }).display() + seq![' '] + argument,
{
    reveal_strlit(" ");
    assert(" "@ == seq![' ']);
    let none = Seq::<Seq<char>>::empty();
    assert(seq![program] + none == seq![program]);
    text::joined_lists_join(seq![program], none, " "@);
    let before = seq![program] + prefix_args;
    assert(seq![program] + prefix_args.push(argument) == before + seq![argument]);
    text::joined_lists_join(before, seq![argument], " "@);
    text::joined_lists_join(seq![argument], none, " "@);
}

/// Whether a text neither starts nor ends with whitespace.
pub open spec fn is_trimmed(text: Seq<char>) -> bool {
    text.len() > 0 ==> !text::is_whitespace(text[0]) && !text::is_whitespace(text.last())
}

/// Whether a text holds nothing but whitespace.
pub open spec fn is_blank(text: Seq<char>) -> bool {
    forall|i: int| 0 <= i < text.len() ==> text::is_whitespace(#[trigger] text[i])
}

/// What is said of an output is the whole of both of its parts, but for the whitespace
/// around them, each under its name. Of a part that is blank nothing is said.
pub proof fn outputs_are_told_in_full(
    before: Seq<char>,
    out: Seq<char>,
    between: Seq<char>,
    err: Seq<char>,
    after: Seq<char>,
)
    requires
        is_blank(before),
        is_blank(between),
        is_blank(after),
        is_trimmed(out),
        is_trimmed(err),
        out.len() > 0,
        err.len() > 0,
    ensures
        output_message(before + out + between, between + err + after) == "stdout:\n"@ + out
            + "\n"@ + "stderr:\n"@ + err,
        output_message(before + out + between, after) == "stdout:\n"@ + out + "\n"@,
        output_message(before, between + err + after) == "stderr:\n"@ + err,
        output_message(before, after) == "resolver produced no output"@,
{
    let none = Seq::<char>::empty();
    text::trimming_takes_the_whitespace_around(before, out, between);
    text::trimming_takes_the_whitespace_around(between, err, after);
    text::trimming_takes_the_whitespace_around(before, none, none);
    text::trimming_takes_the_whitespace_around(after, none, none);
    assert(before + none + none == before);
    assert(after + none + none == after);
}

/// What is said of a failed attempt names the command, and gives its output or why it
/// did not start.
pub proof fn failures_name_their_command(
    command: CommandView,
    stdout: Seq<u8>,
    stderr: Seq<u8>,
    error: Seq<char>,
)
    ensures
        (FailureView::Exited { stdout, stderr }).message(command) == command.display()
            + " failed:\n"@ + output_message(text::decoded(stdout), text::decoded(stderr)),
        (FailureView::NotStarted { error }).message(command) == command.display()
            + " failed to start: "@ + error,
{
}

/// The arguments of every call of pip between the way to run it and the path of its
/// report.
pub proof fn pip_resolves_without_installing()
    ensures
        pip_options().len() == 6,
        pip_options()[0] == "install"@,
        pip_options()[1] == "--disable-pip-version-check"@,
        pip_options()[2] == "--no-input"@,
        pip_options()[3] == "--dry-run"@,
        pip_options()[4] == "--ignore-installed"@,
        pip_options()[5] == "--report"@,
{
}

/// After some failures pip is called in the next way, with the options of every call,
/// then the arguments that were given, and last the requirement. After as many failures
/// as there are ways, the resolution gives up with what is said of each attempt.
pub proof fn every_way_is_tried(
    package_name: Seq<char>,
    package_version: Option<Seq<char>>,
    arguments: Seq<Seq<char>>,
    python: Option<Seq<char>>,
    failures: Seq<FailureView>,
)
    requires
        failures.len() <= pip_commands(python).len(),
    ensures
        ({
            let commands = pip_commands(python);
            let action = after_all(
                ResolutionView::start(package_name, package_version, arguments, python),
                failures,
            ).action();
            if failures.len() < commands.len() {
                action == ActionView::Run(
                    InvocationView {
                        program: commands[failures.len() as int].program,
                        leading_args: commands[failures.len() as int].prefix_args + pip_options(),
                        trailing_args: arguments + seq![requirement(package_name, package_version)],
                    },
                )
            } else {
                action == (ActionView::GiveUp {
                    requirement: requirement(package_name, package_version),
                    attempt_errors: Seq::new(
                        failures.len(),
                        |i: int| failures[i].message(commands[i]),
                    ),
                })
            }
        }),
{
    let start = ResolutionView::start(package_name, package_version, arguments, python);
    commands_are_tried_in_order(start, failures);
    let last = requirement(package_name, package_version);
    assert(arguments.push(last) == arguments + seq![last]);
}

/// A command, a call, a failure, an argument error and an action each stand for what
/// they hold, and a list of commands for its elements in their order.
pub proof fn resolver_values_stand_for_themselves(
    commands: Seq<ResolverCommand>,
    invocation: Invocation,
    failure: AttemptFailure,
    error: ArgumentError,
    action: ResolverAction,
)
    ensures
        command_views(commands).len() == commands.len(),
        forall|i: int|
            0 <= i < commands.len() ==> (#[trigger] command_views(commands)[i]).program
                == commands[i].program@ && command_views(commands)[i].prefix_args == text::views(
                commands[i].prefix_args@,
            ),
        invocation@.program == invocation.program@,
        invocation@.leading_args == text::views(invocation.leading_args@),
        invocation@.trailing_args == text::views(invocation.trailing_args@),
        match failure {
            AttemptFailure::Exited { stdout, stderr } => failure@ == (FailureView::Exited {
                stdout: stdout@,
                stderr: stderr@,
            }),
            AttemptFailure::NotStarted { error } => failure@ == (FailureView::NotStarted {
                error: error@,
            }),
        },
        match error {
            ArgumentError::Unsupported { argument } => error@ == ArgumentFault::Unsupported(
                argument@,
            ),
            ArgumentError::MissingValue { argument } => error@ == ArgumentFault::MissingValue(
                argument@,
            ),
        },
        match action {
            ResolverAction::Run(call) => action@ == ActionView::Run(call@),
            ResolverAction::ReadReport => action@ == ActionView::ReadReport,
            ResolverAction::GiveUp(given_up) => action@ == (ActionView::GiveUp {
                requirement: given_up.requirement@,
                attempt_errors: text::views(given_up.attempt_errors@),
            }),
        },
{
}

/// Where every attempt failed, what is said of each attempt is told in its place, and
/// none is left out.
pub proof fn failures_tell_of_every_attempt(
    requirement: Seq<char>,
    attempt_errors: Seq<Seq<char>>,
    error: Seq<char>,
)
    ensures
        failure_message(requirement, seq![error]) == "Python package resolver failed for "@
            + requirement + ":\n"@ + error,
        attempt_errors.len() > 0 ==> failure_message(requirement, attempt_errors.push(error))
            == failure_message(requirement, attempt_errors) + "\n"@ + error,
{
    text::joined_lists_join(seq![error], Seq::empty(), "\n"@);
    text::joined_lists_join(attempt_errors, seq![error], "\n"@);
    assert(attempt_errors + seq![error] == attempt_errors.push(error));
    if attempt_errors.len() > 0 {
        assert(failure_message(requirement, attempt_errors.push(error)) == failure_message(
            requirement,
            attempt_errors,
        ) + "\n"@ + error);
    }
}

/// Two resolutions with one label work in one directory only where they are of one
/// process and of one time. The name starts with what tells whose directory it is, and
/// ends with the process and the time.
pub proof fn directories_are_told_apart(
    label: Seq<char>,
    process_id: nat,
    timestamp: nat,
    other_process_id: nat,
    other_timestamp: nat,
)
    ensures
        directory_name(label, process_id, timestamp) == "thirdpass-py-resolver-"@ + label + "-"@
            + text::decimal(process_id) + "-"@ + text::decimal(timestamp),
        directory_name(label, process_id, timestamp) == directory_name(
            label,
            other_process_id,
            other_timestamp,
        ) ==> process_id == other_process_id && timestamp == other_timestamp,
{
    let left = directory_name(label, process_id, timestamp);
    let right = directory_name(label, other_process_id, other_timestamp);
    if left == right {
        reveal_strlit("-");
        assert("-"@ == seq!['-']);
        let head = "thirdpass-py-resolver-"@ + label + "-"@;
        let process = text::decimal(process_id);
        let other_process = text::decimal(other_process_id);
        let time = text::decimal(timestamp);
        let other_time = text::decimal(other_timestamp);
        version::decimals_read_back(process_id);
        version::decimals_read_back(other_process_id);
        version::decimals_read_back(timestamp);
        version::decimals_read_back(other_timestamp);
        let tail = process + seq!['-'] + time;
        let other_tail = other_process + seq!['-'] + other_time;
        assert(left.skip(head.len() as int) == tail);
        assert(right.skip(head.len() as int) == other_tail);
        text::lemma_until(process, '-', time);
        text::lemma_until(other_process, '-', other_time);
        assert(process == other_process);
        assert(tail.skip(process.len() as int + 1) == time);
        assert(other_tail.skip(process.len() as int + 1) == other_time);
    }
}

} // verus!
